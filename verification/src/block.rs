//! The catalogue of block types, and the geometry of the cube that a block is
//! drawn as.

use vstd::prelude::*;
use std::hash::{Hash, Hasher};
use crate::color::{brown, green, Color};
use crate::space::{get_normal_for_triangle, triangle_normal, Direction, Position};
use crate::vertex::Vertex;

verus! {

/// One entry of the catalogue of blocks: an identifier and how the block is
/// displayed. Two values are the same block type where their identifiers are
/// equal, whatever their colours.
#[derive(Clone, Copy, Debug)]
pub struct BlockType {
    pub id: u8,
    pub color: Color,
}

impl PartialEq for BlockType {
    fn eq(&self, other: &BlockType) -> (equal: bool) {
        self.id == other.id
    }
}

impl vstd::std_specs::cmp::PartialEqSpecImpl for BlockType {
    open spec fn obeys_eq_spec() -> bool {
        true
    }

    open spec fn eq_spec(&self, other: &BlockType) -> bool {
        self.id == other.id
    }
}

impl Eq for BlockType {

}

impl Hash for BlockType {
    /// Feeds the identifier, and nothing else, to `state` through
    /// `u8::hash` of the standard library. Nothing is claimed of the state
    /// that results.
    #[verifier::external_body]
    fn hash<H: Hasher>(&self, state: &mut H) {
        self.id.hash(state)
    }
}

/// Why a lookup in the catalogue failed.
#[derive(Clone, Copy, Debug, PartialEq, Eq, Structural)]
pub enum BlockError {
    /// The catalogue has no entry with this identifier.
    NotFound { id: u8 },
}

/// Number of entries in the catalogue.
pub const BLOCK_COUNT: u8 = 2;

/// The catalogue, in the order of its identifiers.
pub open spec fn catalog() -> Seq<BlockType> {
    seq![
        BlockType { id: 0, color: green() },
        BlockType { id: 1, color: brown() },
    ]
}

/// The catalogue of block types: grass, then soil.
pub fn blocks() -> (all: [BlockType; 2])
    ensures
        all@ == catalog(),
{
    [BlockType { id: 0, color: green() }, BlockType { id: 1, color: brown() }]
}

/// The catalogue entry with the identifier `id`.
pub fn lookup(id: u8) -> (found: Result<BlockType, BlockError>)
    ensures
        id < BLOCK_COUNT ==> found == Ok::<BlockType, BlockError>(catalog()[id as int]),
        id >= BLOCK_COUNT ==> found == Err::<BlockType, BlockError>(BlockError::NotFound { id }),
{
    if id < BLOCK_COUNT {
        let all = blocks();
        Ok(all[id as usize])
    } else {
        Err(BlockError::NotFound { id })
    }
}

/// Every entry of the catalogue stands at the place of its identifier, so no
/// two entries share one.
pub proof fn lemma_catalog_identifiers()
    ensures
        catalog().len() == BLOCK_COUNT,
        forall|i: int| 0 <= i < catalog().len() ==> (#[trigger] catalog()[i]).id == i,
        forall|i: int, j: int|
            0 <= i < catalog().len() && 0 <= j < catalog().len() && (#[trigger] catalog()[i]).id
                == (#[trigger] catalog()[j]).id ==> i == j,
{
}

/// The corners of a cube around its centre, in half block edges: four for
/// each of the six faces, in the order in which the face is drawn as a strip
/// of two triangles.
///
/// The order matters: it decides which side of a face is its front, and so
/// which faces are culled.
pub open spec fn cube_corners() -> Seq<Direction> {
    seq![
        // face
        Direction::of(-1, -1, 1),
        Direction::of(1, -1, 1),
        Direction::of(-1, 1, 1),
        Direction::of(1, 1, 1),
        // face
        Direction::of(1, -1, 1),
        Direction::of(1, -1, -1),
        Direction::of(1, 1, 1),
        Direction::of(1, 1, -1),
        // face
        Direction::of(1, -1, -1),
        Direction::of(-1, -1, -1),
        Direction::of(1, 1, -1),
        Direction::of(-1, 1, -1),
        // face
        Direction::of(-1, -1, -1),
        Direction::of(-1, -1, 1),
        Direction::of(-1, 1, -1),
        Direction::of(-1, 1, 1),
        // face
        Direction::of(-1, -1, -1),
        Direction::of(1, -1, -1),
        Direction::of(-1, -1, 1),
        Direction::of(1, -1, 1),
        // face
        Direction::of(-1, 1, 1),
        Direction::of(1, 1, 1),
        Direction::of(-1, 1, -1),
        Direction::of(1, 1, -1),
    ]
}

/// The directions that the six faces of a cube look in, face by face in the
/// order of [`cube_corners`].
pub open spec fn face_normals() -> Seq<Direction> {
    seq![
        Direction::of(0, 0, 1),
        Direction::of(1, 0, 0),
        Direction::of(0, 0, -1),
        Direction::of(-1, 0, 0),
        Direction::of(0, -1, 0),
        Direction::of(0, 1, 0),
    ]
}

/// The corners of a cube, face by face.
pub fn cube_vertices() -> (corners: [Direction; 24])
    ensures
        corners@ == cube_corners(),
{
    [
        // face
        Direction { x: -1, y: -1, z: 1 },
        Direction { x: 1, y: -1, z: 1 },
        Direction { x: -1, y: 1, z: 1 },
        Direction { x: 1, y: 1, z: 1 },
        // face
        Direction { x: 1, y: -1, z: 1 },
        Direction { x: 1, y: -1, z: -1 },
        Direction { x: 1, y: 1, z: 1 },
        Direction { x: 1, y: 1, z: -1 },
        // face
        Direction { x: 1, y: -1, z: -1 },
        Direction { x: -1, y: -1, z: -1 },
        Direction { x: 1, y: 1, z: -1 },
        Direction { x: -1, y: 1, z: -1 },
        // face
        Direction { x: -1, y: -1, z: -1 },
        Direction { x: -1, y: -1, z: 1 },
        Direction { x: -1, y: 1, z: -1 },
        Direction { x: -1, y: 1, z: 1 },
        // face
        Direction { x: -1, y: -1, z: -1 },
        Direction { x: 1, y: -1, z: -1 },
        Direction { x: -1, y: -1, z: 1 },
        Direction { x: 1, y: -1, z: 1 },
        // face
        Direction { x: -1, y: 1, z: 1 },
        Direction { x: 1, y: 1, z: 1 },
        Direction { x: -1, y: 1, z: -1 },
        Direction { x: 1, y: 1, z: -1 },
    ]
}

/// The direction that each face of the cube looks in, taken from the first
/// triangle of the face.
pub fn cube_normals() -> (normals: [Direction; 6])
    ensures
        normals@ == face_normals(),
        forall|face: int|
            0 <= face < 6 ==> #[trigger] normals@[face] == triangle_normal(
                cube_corners()[4 * face],
                cube_corners()[4 * face + 1],
                cube_corners()[4 * face + 2],
            ),
{
    let corners = cube_vertices();
    let normals = [
        get_normal_for_triangle(corners[0], corners[1], corners[2]),
        get_normal_for_triangle(corners[4], corners[5], corners[6]),
        get_normal_for_triangle(corners[8], corners[9], corners[10]),
        get_normal_for_triangle(corners[12], corners[13], corners[14]),
        get_normal_for_triangle(corners[16], corners[17], corners[18]),
        get_normal_for_triangle(corners[20], corners[21], corners[22]),
    ];
    proof {
        lemma_face_normals();
    }
    normals
}

/// Whether `corner` lies on the face of the cube that looks in the direction
/// `normal`: `normal` is one step along one axis, and along that axis the
/// corner lies where the normal points.
pub open spec fn on_face(normal: Direction, corner: Direction) -> bool {
    ||| normal == Direction::of(1, 0, 0) && corner.x == 1
    ||| normal == Direction::of(-1, 0, 0) && corner.x == -1
    ||| normal == Direction::of(0, 1, 0) && corner.y == 1
    ||| normal == Direction::of(0, -1, 0) && corner.y == -1
    ||| normal == Direction::of(0, 0, 1) && corner.z == 1
    ||| normal == Direction::of(0, 0, -1) && corner.z == -1
}

/// The normal of each face, as its first triangle gives it, is the direction
/// listed for the face. It looks away from the centre of the cube: all four
/// corners of the face lie on the side of the cube that it points to.
pub proof fn lemma_face_normals()
    ensures
        forall|face: int|
            0 <= face < 6 ==> #[trigger] face_normals()[face] == triangle_normal(
                cube_corners()[4 * face],
                cube_corners()[4 * face + 1],
                cube_corners()[4 * face + 2],
            ),
        forall|corner: int|
            0 <= corner < 24 ==> on_face(
                face_normals()[corner / 4],
                #[trigger] cube_corners()[corner],
            ),
{
    let corners = cube_corners();
    let normals = face_normals();
    assert(normals[0] == triangle_normal(corners[0], corners[1], corners[2])) by (nonlinear_arith)
        requires
            normals[0] == Direction::of(0, 0, 1),
            corners[0] == Direction::of(-1, -1, 1),
            corners[1] == Direction::of(1, -1, 1),
            corners[2] == Direction::of(-1, 1, 1),
    ;
    assert(normals[1] == triangle_normal(corners[4], corners[5], corners[6])) by (nonlinear_arith)
        requires
            normals[1] == Direction::of(1, 0, 0),
            corners[4] == Direction::of(1, -1, 1),
            corners[5] == Direction::of(1, -1, -1),
            corners[6] == Direction::of(1, 1, 1),
    ;
    assert(normals[2] == triangle_normal(corners[8], corners[9], corners[10])) by (nonlinear_arith)
        requires
            normals[2] == Direction::of(0, 0, -1),
            corners[8] == Direction::of(1, -1, -1),
            corners[9] == Direction::of(-1, -1, -1),
            corners[10] == Direction::of(1, 1, -1),
    ;
    assert(normals[3] == triangle_normal(corners[12], corners[13], corners[14])) by (nonlinear_arith)
        requires
            normals[3] == Direction::of(-1, 0, 0),
            corners[12] == Direction::of(-1, -1, -1),
            corners[13] == Direction::of(-1, -1, 1),
            corners[14] == Direction::of(-1, 1, -1),
    ;
    assert(normals[4] == triangle_normal(corners[16], corners[17], corners[18])) by (nonlinear_arith)
        requires
            normals[4] == Direction::of(0, -1, 0),
            corners[16] == Direction::of(-1, -1, -1),
            corners[17] == Direction::of(1, -1, -1),
            corners[18] == Direction::of(-1, -1, 1),
    ;
    assert(normals[5] == triangle_normal(corners[20], corners[21], corners[22])) by (nonlinear_arith)
        requires
            normals[5] == Direction::of(0, 1, 0),
            corners[20] == Direction::of(-1, 1, 1),
            corners[21] == Direction::of(1, 1, 1),
            corners[22] == Direction::of(-1, 1, -1),
    ;
}

/// The 24 corners of the cube of a block whose centre is `position`: each
/// carries the centre, its own offset from it, the colour `color`, and the
/// normal of its face.
pub fn make_cube(position: &Position, color: Color) -> (cube: [Vertex; 24])
    ensures
        forall|i: int|
            0 <= i < 24 ==> #[trigger] cube@[i] == (Vertex {
                position: *position,
                corner: cube_corners()[i],
                color,
                normal: face_normals()[i / 4],
            }),
{
    let corners = cube_vertices();
    let normals = cube_normals();
    [
        Vertex::new(*position, corners[0], color, normals[0]),
        Vertex::new(*position, corners[1], color, normals[0]),
        Vertex::new(*position, corners[2], color, normals[0]),
        Vertex::new(*position, corners[3], color, normals[0]),

        Vertex::new(*position, corners[4], color, normals[1]),
        Vertex::new(*position, corners[5], color, normals[1]),
        Vertex::new(*position, corners[6], color, normals[1]),
        Vertex::new(*position, corners[7], color, normals[1]),

        Vertex::new(*position, corners[8], color, normals[2]),
        Vertex::new(*position, corners[9], color, normals[2]),
        Vertex::new(*position, corners[10], color, normals[2]),
        Vertex::new(*position, corners[11], color, normals[2]),

        Vertex::new(*position, corners[12], color, normals[3]),
        Vertex::new(*position, corners[13], color, normals[3]),
        Vertex::new(*position, corners[14], color, normals[3]),
        Vertex::new(*position, corners[15], color, normals[3]),

        Vertex::new(*position, corners[16], color, normals[4]),
        Vertex::new(*position, corners[17], color, normals[4]),
        Vertex::new(*position, corners[18], color, normals[4]),
        Vertex::new(*position, corners[19], color, normals[4]),

        Vertex::new(*position, corners[20], color, normals[5]),
        Vertex::new(*position, corners[21], color, normals[5]),
        Vertex::new(*position, corners[22], color, normals[5]),
        Vertex::new(*position, corners[23], color, normals[5]),
    ]
}

} // verus!
