use vstd::prelude::*;

verus! {

/// A straight RGBA color with one byte per channel.
#[derive(Clone, Copy, Debug, PartialEq, Eq, Structural)]
pub struct Rgba {
    pub r: u8,
    pub g: u8,
    pub b: u8,
    pub a: u8,
}

pub open spec fn white_spec() -> Rgba {
    Rgba { r: 255, g: 255, b: 255, a: 255 }
}

pub open spec fn black_spec() -> Rgba {
    Rgba { r: 0, g: 0, b: 0, a: 255 }
}

impl Rgba {
    /// Builds a color from its four channels.
    pub fn new(r: u8, g: u8, b: u8, a: u8) -> (c: Rgba)
        ensures
            c == (Rgba { r, g, b, a }),
    {
        Rgba { r, g, b, a }
    }

    /// Opaque white, the default foreground of a cell.
    pub fn white() -> (c: Rgba)
        ensures
            c == white_spec(),
    {
        Rgba { r: 255, g: 255, b: 255, a: 255 }
    }

    /// Opaque black, the default background of a cell.
    pub fn black() -> (c: Rgba)
        ensures
            c == black_spec(),
    {
        Rgba { r: 0, g: 0, b: 0, a: 255 }
    }
}

} // verus!
