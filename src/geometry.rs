use vstd::prelude::*;
use crate::color::Rgba;
use crate::glyph::TerminalGlyph;
use vstd::arithmetic::div_mod::lemma_fundamental_div_mod_converse;

verus! {

/// The depth layer of background quads.
pub const BACKGROUND_LAYER: u8 = 0;

/// The depth layer of glyph quads, drawn over the background.
pub const GLYPH_LAYER: u8 = 1;

/// One corner of a quad. `x` and `y` count cells from the console's top-left
/// corner in storage order; `u` and `v` count glyphs in the font atlas.
#[derive(Clone, Copy, Debug, PartialEq, Eq, Structural)]
pub struct Vertex {
    pub x: usize,
    pub y: usize,
    pub layer: u8,
    pub color: Rgba,
    pub u: usize,
    pub v: usize,
}

/// The four corners of one cell-sized rectangle.
#[derive(Clone, Copy, Debug, PartialEq, Eq, Structural)]
pub struct Quad {
    pub top_left: Vertex,
    pub top_right: Vertex,
    pub bottom_left: Vertex,
    pub bottom_right: Vertex,
}

pub open spec fn vertex_at(x: int, y: int, layer: u8, color: Rgba, u: int, v: int) -> Vertex {
    Vertex { x: x as usize, y: y as usize, layer, color, u: u as usize, v: v as usize }
}

/// The quad drawing the glyph of cell `i` of a grid `width` cells wide,
/// textured from an atlas of `columns` glyphs per row.
pub open spec fn glyph_quad(width: int, columns: int, i: int, cell: TerminalGlyph) -> Quad {
    let x = i % width;
    let y = i / width;
    let u = cell.glyph as int % columns;
    let v = cell.glyph as int / columns;
    let c = cell.foreground;
    Quad {
        top_left: vertex_at(x, y, 1, c, u, v),
        top_right: vertex_at(x + 1, y, 1, c, u + 1, v),
        bottom_left: vertex_at(x, y + 1, 1, c, u, v + 1),
        bottom_right: vertex_at(x + 1, y + 1, 1, c, u + 1, v + 1),
    }
}

/// The untextured quad filling cell `i` of a grid `width` cells wide with its
/// background color.
pub open spec fn background_quad(width: int, i: int, cell: TerminalGlyph) -> Quad {
    let x = i % width;
    let y = i / width;
    let c = cell.background;
    Quad {
        top_left: vertex_at(x, y, 0, c, 0, 0),
        top_right: vertex_at(x + 1, y, 0, c, 0, 0),
        bottom_left: vertex_at(x, y + 1, 0, c, 0, 0),
        bottom_right: vertex_at(x + 1, y + 1, 0, c, 0, 0),
    }
}

proof fn lemma_div_bounded(i: int, d: int)
    requires
        0 <= i,
        0 < d,
    ensures
        0 <= i / d <= i,
        0 <= i % d < d,
{
    assert(0 <= i / d <= i) by (nonlinear_arith)
        requires
            0 <= i,
            0 < d,
    ;
}

/// Builds the glyph quad of cell `i`.
pub fn make_glyph_quad(width: usize, columns: usize, i: usize, cell: TerminalGlyph) -> (q: Quad)
    requires
        width > 0,
        columns > 0,
        i < usize::MAX,
    ensures
        q == glyph_quad(width as int, columns as int, i as int, cell),
{
    proof {
        lemma_div_bounded(i as int, width as int);
        lemma_div_bounded(cell.glyph as int, columns as int);
    }
    let x = i % width;
    let y = i / width;
    let u = (cell.glyph as usize) % columns;
    let v = (cell.glyph as usize) / columns;
    let c = cell.foreground;
    Quad {
        top_left: Vertex { x, y, layer: GLYPH_LAYER, color: c, u, v },
        top_right: Vertex { x: x + 1, y, layer: GLYPH_LAYER, color: c, u: u + 1, v },
        bottom_left: Vertex { x, y: y + 1, layer: GLYPH_LAYER, color: c, u, v: v + 1 },
        bottom_right: Vertex { x: x + 1, y: y + 1, layer: GLYPH_LAYER, color: c, u: u + 1, v: v + 1 },
    }
}

/// Builds the background quad of cell `i`.
pub fn make_background_quad(width: usize, i: usize, cell: TerminalGlyph) -> (q: Quad)
    requires
        width > 0,
        i < usize::MAX,
    ensures
        q == background_quad(width as int, i as int, cell),
{
    proof {
        lemma_div_bounded(i as int, width as int);
    }
    let x = i % width;
    let y = i / width;
    let c = cell.background;
    Quad {
        top_left: Vertex { x, y, layer: BACKGROUND_LAYER, color: c, u: 0, v: 0 },
        top_right: Vertex { x: x + 1, y, layer: BACKGROUND_LAYER, color: c, u: 0, v: 0 },
        bottom_left: Vertex { x, y: y + 1, layer: BACKGROUND_LAYER, color: c, u: 0, v: 0 },
        bottom_right: Vertex { x: x + 1, y: y + 1, layer: BACKGROUND_LAYER, color: c, u: 0, v: 0 },
    }
}

/// Which corner of a quad the `t`-th index of its two triangles names:
/// top-left, top-right, bottom-left, then top-right, bottom-right, bottom-left.
pub open spec fn triangle_corner(t: int) -> int {
    if t == 0 {
        0
    } else if t == 1 {
        1
    } else if t == 2 {
        2
    } else if t == 3 {
        1
    } else if t == 4 {
        3
    } else {
        2
    }
}

/// `r` is the triangle list of `n` quads whose corners are stored four by four.
pub open spec fn is_triangle_list(r: Seq<u32>, n: int) -> bool {
    &&& r.len() == 6 * n
    &&& forall|k: int| 0 <= k < r.len() ==> #[trigger] r[k] == 4 * (k / 6) + triangle_corner(k % 6)
}

/// The index buffer of `n` quads: two triangles each.
pub fn quad_indices(n: usize) -> (r: Vec<u32>)
    requires
        4 * n <= u32::MAX,
    ensures
        is_triangle_list(r@, n as int),
{
    let mut r: Vec<u32> = Vec::new();
    let mut q: usize = 0;
    while q < n
        invariant
            q <= n,
            4 * n <= u32::MAX,
            is_triangle_list(r@, q as int),
        decreases n - q,
    {
        let base = (4 * q) as u32;
        r.push(base);
        r.push(base + 1);
        r.push(base + 2);
        r.push(base + 1);
        r.push(base + 3);
        r.push(base + 2);
        proof {
            assert forall|k: int| 0 <= k < r@.len() implies #[trigger] r@[k] == 4 * (k / 6) + triangle_corner(k % 6) by {
                if k >= 6 * q {
                    lemma_fundamental_div_mod_converse(k, 6, q as int, k - 6 * q);
                }
            }
        }
        q = q + 1;
    }
    r
}

} // verus!
