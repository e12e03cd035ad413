//! Command-set scaffolding shared by the controller models.

use vstd::prelude::*;

verus! {

/// Bits used to represent one pixel on the wire.
#[derive(Clone, Copy, Debug, PartialEq, Eq, Structural)]
pub enum BitsPerPixel {
    /// Three bits per pixel.
    Three,
    /// Eight bits per pixel.
    Eight,
    /// Twelve bits per pixel.
    Twelve,
    /// Sixteen bits per pixel.
    Sixteen,
    /// Eighteen bits per pixel.
    Eighteen,
    /// Twenty-four bits per pixel.
    TwentyFour,
}

} // verus!
