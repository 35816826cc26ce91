//! Display colours of blocks and of the sky.

use vstd::prelude::*;

verus! {

/// A colour as red, green and blue intensities from 0 to 255.
#[derive(Clone, Copy, Debug, PartialEq, Eq, Structural)]
pub struct Color {
    pub r: u8,
    pub g: u8,
    pub b: u8,
}

/// The colour of grass, for contracts.
pub open spec fn spec_green() -> Color {
    Color { r: 51, g: 153, b: 51 }
}

/// The colour of soil, for contracts.
pub open spec fn spec_brown() -> Color {
    Color { r: 128, g: 77, b: 26 }
}

/// The colour of the sky, for contracts.
pub open spec fn spec_sky() -> Color {
    Color { r: 135, g: 206, b: 235 }
}

/// The colour of grass.
#[verifier::when_used_as_spec(spec_green)]
pub fn green() -> (c: Color)
    ensures
        c == spec_green(),
{
    Color { r: 51, g: 153, b: 51 }
}

/// The colour of soil.
#[verifier::when_used_as_spec(spec_brown)]
pub fn brown() -> (c: Color)
    ensures
        c == spec_brown(),
{
    Color { r: 128, g: 77, b: 26 }
}

/// The colour the frame is cleared to.
#[verifier::when_used_as_spec(spec_sky)]
pub fn sky() -> (c: Color)
    ensures
        c == spec_sky(),
{
    Color { r: 135, g: 206, b: 235 }
}

} // verus!
