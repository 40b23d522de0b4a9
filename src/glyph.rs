use vstd::prelude::*;
use crate::color::{Rgba, white_spec, black_spec};

verus! {

/// The code of the space glyph.
pub const SPACE: u16 = 32;

/// One cell of a console: a glyph code and its two colors.
#[derive(Clone, Copy, Debug, PartialEq, Eq, Structural)]
pub struct TerminalGlyph {
    pub glyph: u16,
    pub foreground: Rgba,
    pub background: Rgba,
}

/// A space, white on black.
pub open spec fn blank_spec() -> TerminalGlyph {
    TerminalGlyph { glyph: 32, foreground: white_spec(), background: black_spec() }
}

impl TerminalGlyph {
    /// A space, white on black.
    pub fn blank() -> (g: TerminalGlyph)
        ensures
            g == blank_spec(),
    {
        TerminalGlyph { glyph: SPACE, foreground: Rgba::white(), background: Rgba::black() }
    }
}

impl Default for TerminalGlyph {
    fn default() -> (g: TerminalGlyph)
        ensures
            g == blank_spec(),
    {
        TerminalGlyph::blank()
    }
}

} // verus!
