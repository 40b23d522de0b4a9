use vstd::prelude::*;
use vstd::arithmetic::div_mod::{lemma_fundamental_div_mod, lemma_fundamental_div_mod_converse};
use crate::backend::{DirtySet, SimpleBackend, cell_depicted, cell_quads, is_change_list, quads_len};
use crate::color::{Rgba, white_spec, black_spec};
use crate::cp437::{cp437, string_to_cp437, to_cp437};
use crate::glyph::{SPACE, TerminalGlyph, blank_spec};

verus! {

/// Why a console operation was refused.
#[derive(Clone, Copy, Debug, PartialEq, Eq, Structural)]
pub enum ConsoleError {
    /// A cell it would touch lies outside the grid.
    OutOfBounds,
    /// The mesh backend has not been set up yet.
    BackendNotInitialized,
}

/// Storage index of logical cell `(x, y)`: rows are stored top first, while
/// `y` counts from the bottom row.
pub open spec fn index_of(width: int, height: int, x: int, y: int) -> int {
    (height - 1 - y) * width + x
}

/// Logical column of storage index `i`.
pub open spec fn x_of(width: int, i: int) -> int {
    i % width
}

/// Logical row of storage index `i`, counted from the bottom.
pub open spec fn y_of(width: int, height: int, i: int) -> int {
    height - 1 - i / width
}

proof fn lemma_index_in_grid(width: int, height: int, x: int, y: int)
    requires
        0 <= x < width,
        0 <= y < height,
    ensures
        0 <= index_of(width, height, x, y) < width * height,
        x_of(width, index_of(width, height, x, y)) == x,
        y_of(width, height, index_of(width, height, x, y)) == y,
        index_of(width, height, x, y) - x + width <= width * height,
{
    let r = height - 1 - y;
    assert(0 <= r * width && r * width + width <= height * width) by (nonlinear_arith)
        requires
            0 <= r < height,
            0 < width,
    ;
    assert(height * width == width * height) by (nonlinear_arith);
    lemma_fundamental_div_mod_converse(index_of(width, height, x, y), width, r, x);
}

proof fn lemma_coords(width: int, height: int, i: int)
    requires
        0 < width,
        0 <= i < width * height,
    ensures
        0 <= x_of(width, i) < width,
        0 <= y_of(width, height, i) < height,
        index_of(width, height, x_of(width, i), y_of(width, height, i)) == i,
{
    lemma_fundamental_div_mod(i, width);
    let q = i / width;
    assert(0 <= q < height) by (nonlinear_arith)
        requires
            0 < width,
            0 <= i < width * height,
            i == width * q + i % width,
            0 <= i % width < width,
    ;
    assert(width * q == q * width) by (nonlinear_arith);
}

/// Distinct cells of a grid have distinct storage indices, the top-left cell
/// is stored first and the bottom-right cell last.
pub proof fn lemma_index_injective(width: int, height: int, x1: int, y1: int, x2: int, y2: int)
    requires
        0 <= x1 < width,
        0 <= y1 < height,
        0 <= x2 < width,
        0 <= y2 < height,
    ensures
        index_of(width, height, x1, y1) == index_of(width, height, x2, y2) ==> x1 == x2 && y1 == y2,
        0 <= index_of(width, height, x1, y1) < width * height,
        index_of(width, height, 0, height - 1) == 0,
        index_of(width, height, width - 1, 0) == width * height - 1,
{
    lemma_index_in_grid(width, height, x1, y1);
    lemma_index_in_grid(width, height, x2, y2);
    assert((height - 1) * width + width - 1 == width * height - 1) by (nonlinear_arith);
}

/// `cells` with every glyph turned into a space and every color kept.
pub open spec fn cleared(cells: Seq<TerminalGlyph>) -> Seq<TerminalGlyph> {
    cells.map_values(|c: TerminalGlyph| TerminalGlyph { glyph: SPACE, ..c })
}

/// `cells` with `codes` written in `fg` on `bg` from storage index `start` on.
pub open spec fn printed(
    cells: Seq<TerminalGlyph>,
    start: int,
    codes: Seq<u16>,
    fg: Rgba,
    bg: Rgba,
) -> Seq<TerminalGlyph> {
    Seq::new(
        cells.len(),
        |i: int|
            if start <= i < start + codes.len() {
                TerminalGlyph { glyph: codes[i - start], foreground: fg, background: bg }
            } else {
                cells[i]
            },
    )
}

/// The glyph codes of `text`, one per character.
pub open spec fn codes_of(text: Seq<char>) -> Seq<u16> {
    text.map_values(|c: char| cp437(c))
}

/// Whether logical cell `(x, y)` lies in the box with corners `(sx, sy)` and
/// `(sx + w, sy + h)`, both included.
pub open spec fn in_box(sx: int, sy: int, w: int, h: int, x: int, y: int) -> bool {
    sx <= x <= sx + w && sy <= y <= sy + h
}

/// What a box drawing leaves at `(x, y)` inside the box: line-drawing glyphs in
/// `fg` on `bg` on the border, a white-on-black space inside.
pub open spec fn box_cell(sx: int, sy: int, w: int, h: int, x: int, y: int, fg: Rgba, bg: Rgba) -> TerminalGlyph {
    if x == sx || x == sx + w || y == sy || y == sy + h {
        let g = if sy < y < sy + h {
            cp437('│')
        } else if sx < x < sx + w {
            cp437('─')
        } else if x == sx + w && y == sy + h {
            cp437('┘')
        } else if x == sx && y == sy + h {
            cp437('└')
        } else if x == sx + w {
            cp437('┐')
        } else {
            cp437('┌')
        };
        TerminalGlyph { glyph: g, foreground: fg, background: bg }
    } else {
        blank_spec()
    }
}

/// The cells of a `width` by `height` grid after the box cells before
/// `(cx, cy)`, row by row from the bottom, have been drawn.
pub open spec fn box_progress(
    cells: Seq<TerminalGlyph>,
    width: int,
    height: int,
    sx: int,
    sy: int,
    w: int,
    h: int,
    fg: Rgba,
    bg: Rgba,
    cx: int,
    cy: int,
) -> Seq<TerminalGlyph> {
    Seq::new(
        cells.len(),
        |i: int|
            {
                let x = x_of(width, i);
                let y = y_of(width, height, i);
                if in_box(sx, sy, w, h, x, y) && (y < cy || (y == cy && x < cx)) {
                    box_cell(sx, sy, w, h, x, y, fg, bg)
                } else {
                    cells[i]
                }
            },
    )
}

/// `cells` with the whole box drawn.
pub open spec fn boxed(
    cells: Seq<TerminalGlyph>,
    width: int,
    height: int,
    sx: int,
    sy: int,
    w: int,
    h: int,
    fg: Rgba,
    bg: Rgba,
) -> Seq<TerminalGlyph> {
    Seq::new(
        cells.len(),
        |i: int|
            if in_box(sx, sy, w, h, x_of(width, i), y_of(width, height, i)) {
                box_cell(sx, sy, w, h, x_of(width, i), y_of(width, height, i), fg, bg)
            } else {
                cells[i]
            },
    )
}

/// The cell a box drawing leaves at `(x, y)` inside the box.
fn box_glyph(sx: usize, sy: usize, w: usize, h: usize, x: usize, y: usize, fg: Rgba, bg: Rgba) -> (c: TerminalGlyph)
    requires
        in_box(sx as int, sy as int, w as int, h as int, x as int, y as int),
    ensures
        c == box_cell(sx as int, sy as int, w as int, h as int, x as int, y as int, fg, bg),
{
    if x == sx || x - sx == w || y == sy || y - sy == h {
        let g = if sy < y && y - sy < h {
            to_cp437('│')
        } else if sx < x && x - sx < w {
            to_cp437('─')
        } else if x - sx == w && y - sy == h {
            to_cp437('┘')
        } else if x == sx && y - sy == h {
            to_cp437('└')
        } else if x - sx == w {
            to_cp437('┐')
        } else {
            to_cp437('┌')
        };
        TerminalGlyph { glyph: g, foreground: fg, background: bg }
    } else {
        TerminalGlyph::blank()
    }
}

/// The settings a font contributes to a console's mesh.
#[derive(Clone, Copy, Debug, PartialEq, Eq, Structural)]
pub struct FontStore {
    pub chars_per_row: usize,
    pub n_rows: usize,
    pub font_height_pixels: usize,
}

/// Options chosen when a console's backend is set up.
#[derive(Clone, Copy, Debug, PartialEq, Eq, Structural)]
pub enum SimpleConsoleFeatures {
    /// Draw glyphs only, with no background quad per cell.
    WithoutBackground,
    /// Rebuild the whole mesh every frame.
    NoDirtyOptimization,
}

/// A grid of glyphs and the backend that turns it into a mesh.
pub struct SimpleConsole {
    pub font_index: usize,
    pub width: usize,
    pub height: usize,
    pub terminal: Vec<TerminalGlyph>,
    pub back_end: Option<SimpleBackend>,
}

impl SimpleConsole {
    pub open spec fn wf(&self) -> bool {
        &&& self.terminal@.len() == self.width * self.height
        &&& 2 * (self.width * self.height) < usize::MAX
        &&& match self.back_end {
            Some(b) => {
                &&& b.wf()
                &&& b.settled()
                &&& b.width == self.width
                &&& b.height == self.height
            },
            None => true,
        }
    }

    /// `self` and `o` agree on everything but the cells.
    pub open spec fn same_setup(&self, o: &SimpleConsole) -> bool {
        &&& self.font_index == o.font_index
        &&& self.width == o.width
        &&& self.height == o.height
        &&& self.back_end == o.back_end
    }

    pub open spec fn index(&self, x: int, y: int) -> int {
        index_of(self.width as int, self.height as int, x, y)
    }

    /// A `width` by `height` console of blank cells, with no backend yet.
    pub fn new(font_index: usize, width: usize, height: usize) -> (c: SimpleConsole)
        requires
            2 * (width * height) < usize::MAX,
        ensures
            c.wf(),
            c.font_index == font_index,
            c.width == width,
            c.height == height,
            c.terminal@ == Seq::new((width * height) as nat, |i: int| blank_spec()),
            c.back_end is None,
    {
        let n = width * height;
        let mut terminal: Vec<TerminalGlyph> = Vec::new();
        let mut i: usize = 0;
        while i < n
            invariant
                i <= n,
                terminal@ == Seq::new(i as nat, |k: int| blank_spec()),
            decreases n - i,
        {
            terminal.push(TerminalGlyph::blank());
            i = i + 1;
            assert(terminal@ =~= Seq::new(i as nat, |k: int| blank_spec()));
        }
        SimpleConsole { font_index, width, height, terminal, back_end: None }
    }

    /// The storage index of logical cell `(x, y)`.
    pub fn at(&self, x: usize, y: usize) -> (r: usize)
        requires
            self.wf(),
            x < self.width,
            y < self.height,
        ensures
            r == self.index(x as int, y as int),
            r < self.terminal@.len(),
    {
        proof {
            lemma_index_in_grid(self.width as int, self.height as int, x as int, y as int);
        }
        (self.height - 1 - y) * self.width + x
    }

    /// Turns every glyph into a space, keeping the colors.
    pub fn cls(&mut self)
        requires
            old(self).wf(),
        ensures
            final(self).wf(),
            final(self).same_setup(old(self)),
            final(self).terminal@ == cleared(old(self).terminal@),
    {
        let n = self.terminal.len();
        let mut i: usize = 0;
        while i < n
            invariant
                n == self.terminal@.len(),
                n == old(self).terminal@.len(),
                i <= n,
                self.wf(),
                self.same_setup(old(self)),
                forall|k: int| 0 <= k < i ==> #[trigger] self.terminal@[k] == cleared(old(self).terminal@)[k],
                forall|k: int| i <= k < n ==> #[trigger] self.terminal@[k] == old(self).terminal@[k],
            decreases n - i,
        {
            let c = self.terminal[i];
            self.terminal.set(i, TerminalGlyph { glyph: SPACE, ..c });
            i = i + 1;
        }
        assert(self.terminal@ =~= cleared(old(self).terminal@));
    }

    /// Overwrites cell `(x, y)`.
    pub fn set(&mut self, x: usize, y: usize, fg: Rgba, bg: Rgba, glyph: u16) -> (r: Result<(), ConsoleError>)
        requires
            old(self).wf(),
        ensures
            final(self).wf(),
            final(self).same_setup(old(self)),
            r is Ok <==> x < old(self).width && y < old(self).height,
            r is Err ==> r == Err::<(), ConsoleError>(ConsoleError::OutOfBounds) && final(self).terminal == old(self).terminal,
            r is Ok ==> final(self).terminal@ == old(self).terminal@.update(
                old(self).index(x as int, y as int),
                TerminalGlyph { glyph, foreground: fg, background: bg },
            ),
    {
        if x >= self.width || y >= self.height {
            return Err(ConsoleError::OutOfBounds);
        }
        let idx = self.at(x, y);
        self.terminal.set(idx, TerminalGlyph { glyph, foreground: fg, background: bg });
        Ok(())
    }

    /// Writes `codes` in `fg` on `bg` from storage index `start` on.
    fn write_codes(&mut self, start: usize, codes: &Vec<u16>, fg: Rgba, bg: Rgba)
        requires
            old(self).wf(),
            start + codes@.len() <= old(self).terminal@.len(),
        ensures
            final(self).wf(),
            final(self).same_setup(old(self)),
            final(self).terminal@ == printed(old(self).terminal@, start as int, codes@, fg, bg),
    {
        let n = codes.len();
        let mut k: usize = 0;
        while k < n
            invariant
                n == codes@.len(),
                k <= n,
                start + n <= self.terminal@.len(),
                self.wf(),
                self.same_setup(old(self)),
                self.terminal@ == printed(old(self).terminal@, start as int, codes@.subrange(0, k as int), fg, bg),
            decreases n - k,
        {
            self.terminal.set(start + k, TerminalGlyph { glyph: codes[k], foreground: fg, background: bg });
            k = k + 1;
            assert(self.terminal@ =~= printed(old(self).terminal@, start as int, codes@.subrange(0, k as int), fg, bg));
        }
        assert(codes@.subrange(0, n as int) =~= codes@);
    }

    /// Writes `text` from `(x, y)` rightwards in `foreground` on `background`,
    /// one cell per character. The whole text must fit on the row.
    pub fn print_color(
        &mut self,
        x: usize,
        y: usize,
        text: &str,
        foreground: Rgba,
        background: Rgba,
    ) -> (r: Result<(), ConsoleError>)
        requires
            old(self).wf(),
        ensures
            final(self).wf(),
            final(self).same_setup(old(self)),
            r is Ok <==> text@.len() == 0 || (y < old(self).height && x + text@.len() <= old(self).width),
            r is Err ==> r == Err::<(), ConsoleError>(ConsoleError::OutOfBounds) && final(self).terminal == old(self).terminal,
            r is Ok ==> final(self).terminal@ == printed(
                old(self).terminal@,
                old(self).index(x as int, y as int),
                codes_of(text@),
                foreground,
                background,
            ),
    {
        let codes = string_to_cp437(text);
        if codes.len() == 0 {
            assert(self.terminal@ =~= printed(self.terminal@, self.index(x as int, y as int), codes@, foreground, background));
            return Ok(());
        }
        if y >= self.height || x > self.width || codes.len() > self.width - x {
            return Err(ConsoleError::OutOfBounds);
        }
        let start = self.at(x, y);
        proof {
            lemma_index_in_grid(self.width as int, self.height as int, x as int, y as int);
        }
        self.write_codes(start, &codes, foreground, background);
        Ok(())
    }

    /// Writes `text` from `(x, y)` rightwards, white on black.
    pub fn print(&mut self, x: usize, y: usize, text: &str) -> (r: Result<(), ConsoleError>)
        requires
            old(self).wf(),
        ensures
            final(self).wf(),
            final(self).same_setup(old(self)),
            r is Ok <==> text@.len() == 0 || (y < old(self).height && x + text@.len() <= old(self).width),
            r is Err ==> r == Err::<(), ConsoleError>(ConsoleError::OutOfBounds) && final(self).terminal == old(self).terminal,
            r is Ok ==> final(self).terminal@ == printed(
                old(self).terminal@,
                old(self).index(x as int, y as int),
                codes_of(text@),
                white_spec(),
                black_spec(),
            ),
    {
        self.print_color(x, y, text, Rgba::white(), Rgba::black())
    }

    /// Writes `text` white on black on row `y`, centered by its number of
    /// characters.
    pub fn print_centered(&mut self, y: usize, text: &str) -> (r: Result<(), ConsoleError>)
        requires
            old(self).wf(),
        ensures
            final(self).wf(),
            final(self).same_setup(old(self)),
            r is Ok <==> text@.len() == 0 || (y < old(self).height && text@.len() <= old(self).width),
            r is Err ==> r == Err::<(), ConsoleError>(ConsoleError::OutOfBounds) && final(self).terminal == old(self).terminal,
            r is Ok ==> final(self).terminal@ == printed(
                old(self).terminal@,
                old(self).index(old(self).width / 2 - text@.len() / 2, y as int),
                codes_of(text@),
                white_spec(),
                black_spec(),
            ),
    {
        let len = text.unicode_len();
        if len > 0 && (y >= self.height || len > self.width) {
            return Err(ConsoleError::OutOfBounds);
        }
        let x = self.width / 2 - len / 2;
        self.print(x, y, text)
    }
    /// Draws a box whose corners are `(sx, sy)` and `(sx + width, sy + height)`:
    /// line-drawing glyphs in `fg` on `bg` around, white-on-black spaces inside.
    pub fn draw_box(
        &mut self,
        sx: usize,
        sy: usize,
        width: usize,
        height: usize,
        fg: Rgba,
        bg: Rgba,
    ) -> (r: Result<(), ConsoleError>)
        requires
            old(self).wf(),
        ensures
            final(self).wf(),
            final(self).same_setup(old(self)),
            r is Ok <==> sx + width < old(self).width && sy + height < old(self).height,
            r is Err ==> r == Err::<(), ConsoleError>(ConsoleError::OutOfBounds) && final(self).terminal == old(self).terminal,
            r is Ok ==> final(self).terminal@ == boxed(
                old(self).terminal@,
                old(self).width as int,
                old(self).height as int,
                sx as int,
                sy as int,
                width as int,
                height as int,
                fg,
                bg,
            ),
    {
        if sx >= self.width || width >= self.width - sx || sy >= self.height || height >= self.height - sy {
            return Err(ConsoleError::OutOfBounds);
        }
        let ghost cells = self.terminal@;
        let ghost ww = self.width as int;
        let ghost hh = self.height as int;
        let ex = sx + width;
        let ey = sy + height;
        let mut y = sy;
        while y <= ey
            invariant
                ex == sx + width,
                ey == sy + height,
                ex < self.width,
                ey < self.height,
                sy <= y <= ey + 1,
                ww == self.width,
                hh == self.height,
                cells.len() == ww * hh,
                self.wf(),
                self.same_setup(old(self)),
                self.terminal@ == box_progress(cells, ww, hh, sx as int, sy as int, width as int, height as int, fg, bg, sx as int, y as int),
            decreases ey + 1 - y,
        {
            let mut x = sx;
            while x <= ex
                invariant
                    ex == sx + width,
                    ey == sy + height,
                    ex < self.width,
                    ey < self.height,
                    sy <= y <= ey,
                    sx <= x <= ex + 1,
                    ww == self.width,
                    hh == self.height,
                    cells.len() == ww * hh,
                    self.wf(),
                    self.same_setup(old(self)),
                    self.terminal@ == box_progress(cells, ww, hh, sx as int, sy as int, width as int, height as int, fg, bg, x as int, y as int),
                decreases ex + 1 - x,
            {
                let idx = self.at(x, y);
                let c = box_glyph(sx, sy, width, height, x, y, fg, bg);
                let ghost before = self.terminal@;
                self.terminal.set(idx, c);
                proof {
                    lemma_index_in_grid(ww, hh, x as int, y as int);
                    assert forall|i: int| 0 <= i < cells.len() implies #[trigger] self.terminal@[i]
                        == box_progress(cells, ww, hh, sx as int, sy as int, width as int, height as int, fg, bg, x + 1, y as int)[i] by {
                        lemma_coords(ww, hh, i);
                    }
                    assert(self.terminal@ =~= box_progress(cells, ww, hh, sx as int, sy as int, width as int, height as int, fg, bg, x + 1, y as int));
                }
                x = x + 1;
            }
            assert(self.terminal@ =~= box_progress(cells, ww, hh, sx as int, sy as int, width as int, height as int, fg, bg, sx as int, y + 1));
            y = y + 1;
        }
        assert(self.terminal@ =~= boxed(cells, ww, hh, sx as int, sy as int, width as int, height as int, fg, bg));
        Ok(())
    }
    /// Sets up the mesh backend, once, from the console's font and `features`,
    /// and builds the whole mesh of the current cells. Nothing has been
    /// compared yet, so the first update reports every cell dirty.
    pub fn initialize(&mut self, fonts: &Vec<FontStore>, features: &Vec<SimpleConsoleFeatures>)
        requires
            old(self).wf(),
            old(self).back_end is None,
            old(self).font_index < fonts@.len(),
            old(self).width * old(self).height > 0 ==> fonts@[old(self).font_index as int].chars_per_row > 0,
            4 * quads_len(
                !features@.contains(SimpleConsoleFeatures::WithoutBackground),
                old(self).width * old(self).height,
            ) <= u32::MAX,
        ensures
            final(self).wf(),
            final(self).font_index == old(self).font_index,
            final(self).width == old(self).width,
            final(self).height == old(self).height,
            final(self).terminal == old(self).terminal,
            final(self).back_end is Some,
            ({
                let b = final(self).back_end->Some_0;
                let font = fonts@[old(self).font_index as int];
                &&& b.with_background == !features@.contains(SimpleConsoleFeatures::WithoutBackground)
                &&& b.no_dirty_optimization == features@.contains(SimpleConsoleFeatures::NoDirtyOptimization)
                &&& b.chars_per_row == font.chars_per_row
                &&& b.n_rows == font.n_rows
                &&& b.font_height_pixels == font.font_height_pixels
                &&& b.rendered@ == old(self).terminal@
                &&& b.depicts(b.quads@, old(self).terminal@)
                &&& b.dirty is All
                &&& b.snapshot is None
            }),
    {
        let font = fonts[self.font_index];
        let without_background = has_feature(features, SimpleConsoleFeatures::WithoutBackground);
        let no_dirty_optimization = has_feature(features, SimpleConsoleFeatures::NoDirtyOptimization);
        proof {
            let n = self.width * self.height;
            assert(n > 0 ==> self.width > 0) by (nonlinear_arith)
                requires
                    n == self.width * self.height,
            ;
        }
        let back_end = SimpleBackend::new(
            &self.terminal,
            font.chars_per_row,
            font.n_rows,
            font.font_height_pixels,
            self.width,
            self.height,
            no_dirty_optimization,
            !without_background,
        );
        self.back_end = Some(back_end);
    }

    /// The per-frame update: finds the changed cells, brings the mesh up to
    /// date with them and forgets them. Returns the dirty set it worked from:
    /// every cell when the optimization is off or on the first update, else
    /// exactly the cells that changed since the last update. Afterwards the
    /// mesh is exactly that of the current cells, and the quads of every
    /// unchanged cell are as they were.
    pub fn update_mesh(&mut self) -> (r: Result<DirtySet, ConsoleError>)
        requires
            old(self).wf(),
        ensures
            final(self).wf(),
            final(self).font_index == old(self).font_index,
            final(self).width == old(self).width,
            final(self).height == old(self).height,
            final(self).terminal == old(self).terminal,
            r is Ok <==> old(self).back_end is Some,
            r is Err ==> r == Err::<DirtySet, ConsoleError>(ConsoleError::BackendNotInitialized) && final(self).back_end is None,
            r is Ok ==> final(self).back_end is Some,
            r is Ok ==> ({
                let b = final(self).back_end->Some_0;
                let a = old(self).back_end->Some_0;
                let d = r->Ok_0;
                &&& a.no_dirty_optimization || a.snapshot is None ==> d is All
                &&& !a.no_dirty_optimization && a.snapshot is Some ==> d is Cells && is_change_list(
                    d->Cells_0@,
                    a.snapshot->Some_0@,
                    old(self).terminal@,
                )
                &&& b.depicts(b.quads@, old(self).terminal@)
                &&& b.quads@.len() == a.quads@.len()
                &&& b.indices == a.indices
                &&& forall|j: int|
                    0 <= j < old(self).terminal@.len() && a.snapshot is Some
                        && #[trigger] a.snapshot->Some_0@[j] == old(self).terminal@[j]
                        ==> cell_quads(a.with_background, b.quads@, j) == cell_quads(a.with_background, a.quads@, j)
                &&& b.snapshot is Some
                &&& b.snapshot->Some_0@ == old(self).terminal@
                &&& b.dirty matches DirtySet::Cells(v) && v@.len() == 0
                &&& b.with_background == a.with_background
                &&& b.no_dirty_optimization == a.no_dirty_optimization
                &&& b.chars_per_row == a.chars_per_row
                &&& b.n_rows == a.n_rows
                &&& b.font_height_pixels == a.font_height_pixels
            }),
    {
        let ghost a = self.back_end->Some_0;
        match &mut self.back_end {
            Some(b) => {
                b.update_dirty(&self.terminal);
                let d = b.dirty_set();
                b.update_mesh(&self.terminal);
                b.clear_dirty();
                proof {
                    let n = self.terminal@.len() as int;
                    assert forall|j: int|
                        0 <= j < n && a.snapshot is Some && #[trigger] a.snapshot->Some_0@[j] == self.terminal@[j]
                        implies cell_quads(a.with_background, b.quads@, j) == cell_quads(a.with_background, a.quads@, j) by {
                        assert(cell_depicted(a.with_background, a.width as int, a.chars_per_row as int, a.quads@, j, a.rendered@[j]));
                        assert(cell_depicted(a.with_background, a.width as int, a.chars_per_row as int, b.quads@, j, self.terminal@[j]));
                        if a.with_background {
                            assert(cell_quads(a.with_background, b.quads@, j) =~= cell_quads(a.with_background, a.quads@, j));
                        } else {
                            assert(cell_quads(a.with_background, b.quads@, j) =~= cell_quads(a.with_background, a.quads@, j));
                        }
                    }
                }
                Ok(d)
            },
            None => Err(ConsoleError::BackendNotInitialized),
        }
    }
}

/// Whether `features` holds `f`.
fn has_feature(features: &Vec<SimpleConsoleFeatures>, f: SimpleConsoleFeatures) -> (r: bool)
    ensures
        r == features@.contains(f),
{
    let mut i: usize = 0;
    while i < features.len()
        invariant
            i <= features@.len(),
            forall|k: int| 0 <= k < i ==> features@[k] != f,
        decreases features@.len() - i,
    {
        if features[i] == f {
            assert(features@[i as int] == f);
            return true;
        }
        i = i + 1;
    }
    false
}

} // verus!
