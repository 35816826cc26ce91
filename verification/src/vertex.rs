//! One corner of a cube as the renderer draws it.

use vstd::prelude::*;
use crate::color::Color;
use crate::space::{Direction, Position};

verus! {

/// A corner of a block's cube: the centre of the block, the offset of the
/// corner from that centre in half block edges, the colour of the block, and
/// the direction that the face of this corner looks in.
#[derive(Clone, Copy, Debug, PartialEq, Eq, Structural)]
pub struct Vertex {
    pub position: Position,
    pub corner: Direction,
    pub color: Color,
    pub normal: Direction,
}

impl Vertex {
    /// The corner with the given parts.
    pub fn new(position: Position, corner: Direction, color: Color, normal: Direction) -> (vertex:
        Vertex)
        ensures
            vertex == (Vertex { position, corner, color, normal }),
    {
        Vertex { position, corner, color, normal }
    }
}

} // verus!
