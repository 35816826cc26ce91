//! Which chunks lie near a position: the cube of chunk coordinates around the
//! chunk that owns it.

use vstd::prelude::*;
use crate::sequences::{lemma_flat_map_contains, lemma_flat_map_distinct, lemma_flat_map_len};
use crate::space::{chunk_coord, chunk_index, ChunkPos, Position};

verus! {

/// The chunk coordinates along one axis that lie within `radius` of `center`,
/// in ascending order, as far as a [`ChunkPos`] can hold them.
pub open spec fn axis_reach(center: int, radius: int) -> Seq<i32> {
    let low = if center - radius < i32::MIN {
        i32::MIN as int
    } else {
        center - radius
    };
    let high = if center + radius > i32::MAX {
        i32::MAX as int
    } else {
        center + radius
    };
    Seq::new(
        if high >= low {
            (high - low + 1) as nat
        } else {
            0
        },
        |i: int| (low + i) as i32,
    )
}

/// The chunk coordinates with the given `x` and `y` and each `z` of `zs`.
pub open spec fn row(x: i32, y: i32, zs: Seq<i32>) -> Seq<ChunkPos> {
    zs.map_values(|z: i32| ChunkPos { x, y, z })
}

/// The chunk coordinates with the given `x`, each `y` of `ys` and each `z`
/// of `zs`, row after row.
pub open spec fn slab(x: i32, ys: Seq<i32>, zs: Seq<i32>) -> Seq<ChunkPos> {
    ys.flat_map(|y: i32| row(x, y, zs))
}

/// The chunk coordinates with each `x` of `xs`, each `y` of `ys` and each
/// `z` of `zs`: `x` changes slowest and `z` fastest.
pub open spec fn lattice(xs: Seq<i32>, ys: Seq<i32>, zs: Seq<i32>) -> Seq<ChunkPos> {
    xs.flat_map(|x: i32| slab(x, ys, zs))
}

/// The coordinates of every chunk within `radius` chunks of the chunk that
/// owns `center`, along each axis: a cube of chunks, in lexicographic order.
pub open spec fn near(center: Position, radius: int) -> Seq<ChunkPos> {
    lattice(
        axis_reach(chunk_coord(center.x as int), radius),
        axis_reach(chunk_coord(center.y as int), radius),
        axis_reach(chunk_coord(center.z as int), radius),
    )
}

/// The chunk coordinates along one axis within `radius` of `center`.
fn reach(center: i64, radius: u32) -> (reached: Vec<i32>)
    requires
        -0x1000_0000_0000_0000 < center < 0x1000_0000_0000_0000,
    ensures
        reached@ == axis_reach(center as int, radius as int),
{
    let low: i64 = if center - (radius as i64) < i32::MIN as i64 {
        i32::MIN as i64
    } else {
        center - radius as i64
    };
    let high: i64 = if center + (radius as i64) > i32::MAX as i64 {
        i32::MAX as i64
    } else {
        center + radius as i64
    };
    let mut reached: Vec<i32> = Vec::new();
    if low > high {
        return reached;
    }
    let mut next: i64 = low;
    while next <= high
        invariant
            i32::MIN <= low <= next,
            next <= high + 1,
            high <= i32::MAX,
            reached@ == Seq::new((next - low) as nat, |i: int| (low + i) as i32),
        decreases high + 1 - next,
    {
        reached.push(next as i32);
        next = next + 1;
    }
    reached
}

/// The coordinates of every chunk within `radius` chunks of the chunk that
/// owns `center`, in lexicographic order. With the radius 1 and a centre away
/// from the rim of the world these are 27 chunks.
pub fn chunks_near(center: Position, radius: u32) -> (places: Vec<ChunkPos>)
    ensures
        places@ == near(center, radius as int),
{
    let xs = reach(chunk_index(center.x), radius);
    let ys = reach(chunk_index(center.y), radius);
    let zs = reach(chunk_index(center.z), radius);
    let mut places: Vec<ChunkPos> = Vec::new();
    let mut i: usize = 0;
    while i < xs.len()
        invariant
            i <= xs.len(),
            places@ == lattice(xs@.take(i as int), ys@, zs@),
        decreases xs.len() - i,
    {
        let x = xs[i];
        let mut j: usize = 0;
        while j < ys.len()
            invariant
                i < xs.len(),
                x == xs[i as int],
                j <= ys.len(),
                places@ == lattice(xs@.take(i as int), ys@, zs@) + slab(x, ys@.take(j as int), zs@),
            decreases ys.len() - j,
        {
            let y = ys[j];
            let ghost before = places@;
            let mut k: usize = 0;
            while k < zs.len()
                invariant
                    k <= zs.len(),
                    places@ == before + row(x, y, zs@.take(k as int)),
                decreases zs.len() - k,
            {
                places.push(ChunkPos { x, y, z: zs[k] });
                k = k + 1;
            }
            proof {
                assert(ys@.take(j + 1) =~= ys@.take(j as int).push(y));
                ys@.take(j as int).lemma_flat_map_push(|y: i32| row(x, y, zs@), y);
            }
            j = j + 1;
        }
        proof {
            assert(ys@.take(ys.len() as int) =~= ys@);
            assert(xs@.take(i + 1) =~= xs@.take(i as int).push(x));
            xs@.take(i as int).lemma_flat_map_push(|x: i32| slab(x, ys@, zs@), x);
        }
        i = i + 1;
    }
    proof {
        assert(xs@.take(xs.len() as int) =~= xs@);
    }
    places
}

/// A coordinate is in reach along an axis exactly where it differs from the
/// centre by the radius at most.
pub proof fn lemma_axis_reach(center: int, radius: int, coordinate: i32)
    requires
        0 <= radius,
    ensures
        axis_reach(center, radius).contains(coordinate) <==> center - radius <= coordinate
            <= center + radius,
        axis_reach(center, radius).no_duplicates(),
        i32::MIN + radius <= center <= i32::MAX - radius ==> axis_reach(center, radius).len() == 2
            * radius + 1,
{
    let reached = axis_reach(center, radius);
    let low = if center - radius < i32::MIN {
        i32::MIN as int
    } else {
        center - radius
    };
    if center - radius <= coordinate <= center + radius {
        assert(reached[coordinate - low] == coordinate);
    }
}

/// Whether the whole cube of chunks within `radius` of the chunk that owns
/// `center` lies inside the range of chunk coordinates.
pub open spec fn cube_fits(center: Position, radius: int) -> bool {
    &&& i32::MIN + radius <= chunk_coord(center.x as int) <= i32::MAX - radius
    &&& i32::MIN + radius <= chunk_coord(center.y as int) <= i32::MAX - radius
    &&& i32::MIN + radius <= chunk_coord(center.z as int) <= i32::MAX - radius
}

/// The chunks near a position are exactly those whose coordinates differ from
/// the coordinates of the chunk that owns the position by the radius at most,
/// along every axis. Each of them is named once. Where the whole cube lies
/// inside the range of chunk coordinates, it has `2 * radius + 1` chunks
/// along each edge: 27 chunks for the radius 1.
pub proof fn lemma_near(center: Position, radius: int)
    requires
        0 <= radius,
    ensures
        forall|at: ChunkPos| #[trigger]
            near(center, radius).contains(at) <==> {
                &&& chunk_coord(center.x as int) - radius <= at.x <= chunk_coord(center.x as int)
                    + radius
                &&& chunk_coord(center.y as int) - radius <= at.y <= chunk_coord(center.y as int)
                    + radius
                &&& chunk_coord(center.z as int) - radius <= at.z <= chunk_coord(center.z as int)
                    + radius
            },
        near(center, radius).no_duplicates(),
        cube_fits(center, radius) ==> near(center, radius).len() == (2 * radius + 1) * (2 * radius
            + 1) * (2 * radius + 1),
        cube_fits(center, radius) && radius == 1 ==> near(center, radius).len() == 27,
{
    let cx = chunk_coord(center.x as int);
    let cy = chunk_coord(center.y as int);
    let cz = chunk_coord(center.z as int);
    let xs = axis_reach(cx, radius);
    let ys = axis_reach(cy, radius);
    let zs = axis_reach(cz, radius);
    assert forall|at: ChunkPos| #[trigger]
        near(center, radius).contains(at) <==> {
            &&& cx - radius <= at.x <= cx + radius
            &&& cy - radius <= at.y <= cy + radius
            &&& cz - radius <= at.z <= cz + radius
        } by {
        lemma_lattice_contains(xs, ys, zs, at);
        lemma_axis_reach(cx, radius, at.x);
        lemma_axis_reach(cy, radius, at.y);
        lemma_axis_reach(cz, radius, at.z);
    }
    lemma_axis_reach(cx, radius, 0);
    lemma_axis_reach(cy, radius, 0);
    lemma_axis_reach(cz, radius, 0);
    lemma_lattice_distinct(xs, ys, zs);
    lemma_lattice_len(xs, ys, zs);
}

/// A row holds the coordinates with its `x` and `y` and a `z` of its own.
proof fn lemma_row_contains(x: i32, y: i32, zs: Seq<i32>, at: ChunkPos)
    ensures
        row(x, y, zs).contains(at) <==> x == at.x && y == at.y && zs.contains(at.z),
{
    let cells = row(x, y, zs);
    if x == at.x && y == at.y && zs.contains(at.z) {
        let k = choose|k: int| 0 <= k < zs.len() && zs[k] == at.z;
        assert(cells[k] == at);
    }
}

/// A slab holds the coordinates with its `x`, a `y` and a `z` of its own.
proof fn lemma_slab_contains(x: i32, ys: Seq<i32>, zs: Seq<i32>, at: ChunkPos)
    ensures
        slab(x, ys, zs).contains(at) <==> x == at.x && ys.contains(at.y) && zs.contains(at.z),
{
    lemma_flat_map_contains(ys, |y: i32| row(x, y, zs), at);
    assert forall|y: i32| row(x, y, zs).contains(at) <==> x == at.x && y == at.y && zs.contains(
        at.z,
    ) by {
        lemma_row_contains(x, y, zs, at);
    }
    if x == at.x && ys.contains(at.y) && zs.contains(at.z) {
        let j = choose|j: int| 0 <= j < ys.len() && ys[j] == at.y;
        assert(row(x, ys[j], zs).contains(at));
    }
}

/// A lattice holds the coordinates whose parts are taken from its three
/// sequences, and no others.
proof fn lemma_lattice_contains(xs: Seq<i32>, ys: Seq<i32>, zs: Seq<i32>, at: ChunkPos)
    ensures
        lattice(xs, ys, zs).contains(at) <==> xs.contains(at.x) && ys.contains(at.y) && zs.contains(
            at.z,
        ),
{
    lemma_flat_map_contains(xs, |x: i32| slab(x, ys, zs), at);
    assert forall|x: i32| slab(x, ys, zs).contains(at) <==> x == at.x && ys.contains(at.y)
        && zs.contains(at.z) by {
        lemma_slab_contains(x, ys, zs, at);
    }
    if xs.contains(at.x) && ys.contains(at.y) && zs.contains(at.z) {
        let i = choose|i: int| 0 <= i < xs.len() && xs[i] == at.x;
        assert(slab(xs[i], ys, zs).contains(at));
    }
}

/// A lattice of sequences without repetition names no coordinates twice.
proof fn lemma_lattice_distinct(xs: Seq<i32>, ys: Seq<i32>, zs: Seq<i32>)
    requires
        xs.no_duplicates(),
        ys.no_duplicates(),
        zs.no_duplicates(),
    ensures
        lattice(xs, ys, zs).no_duplicates(),
{
    assert forall|x: i32| slab(x, ys, zs).no_duplicates() by {
        assert forall|y: i32| row(x, y, zs).no_duplicates() by {
            let cells = row(x, y, zs);
            assert forall|a: int, b: int| 0 <= a < cells.len() && 0 <= b < cells.len() && a
                != b implies cells[a] != cells[b] by {
                assert(zs[a] != zs[b]);
            }
        }
        assert forall|i: int, j: int, e: ChunkPos|
            0 <= i < j < ys.len() && #[trigger] row(x, ys[i], zs).contains(e) implies !#[trigger] row(
                x,
                ys[j],
                zs,
            ).contains(e) by {
            lemma_row_contains(x, ys[i], zs, e);
            lemma_row_contains(x, ys[j], zs, e);
        }
        lemma_flat_map_distinct(ys, |y: i32| row(x, y, zs));
    }
    assert forall|i: int, j: int, e: ChunkPos|
        0 <= i < j < xs.len() && #[trigger] slab(xs[i], ys, zs).contains(e) implies !#[trigger] slab(
            xs[j],
            ys,
            zs,
        ).contains(e) by {
        lemma_slab_contains(xs[i], ys, zs, e);
        lemma_slab_contains(xs[j], ys, zs, e);
    }
    lemma_flat_map_distinct(xs, |x: i32| slab(x, ys, zs));
}

/// A lattice has as many coordinates as the product of the lengths of its
/// three sequences.
proof fn lemma_lattice_len(xs: Seq<i32>, ys: Seq<i32>, zs: Seq<i32>)
    ensures
        lattice(xs, ys, zs).len() == xs.len() * ys.len() * zs.len(),
{
    assert forall|x: i32| slab(x, ys, zs).len() == ys.len() * zs.len() by {
        lemma_flat_map_len(ys, |y: i32| row(x, y, zs), zs.len());
    }
    lemma_flat_map_len(xs, |x: i32| slab(x, ys, zs), ys.len() * zs.len());
    assert(xs.len() * (ys.len() * zs.len()) == xs.len() * ys.len() * zs.len())
        by (nonlinear_arith);
}

} // verus!
