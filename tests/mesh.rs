use simple_console::backend::{DirtySet, SimpleBackend};
use simple_console::color::Rgba;
use simple_console::console::{FontStore, SimpleConsole, SimpleConsoleFeatures};
use simple_console::geometry::{Quad, Vertex, make_glyph_quad};
use simple_console::glyph::TerminalGlyph;

fn grid(n: usize) -> Vec<TerminalGlyph> {
    vec![TerminalGlyph::blank(); n]
}

fn fresh(with_background: bool, no_dirty: bool) -> (SimpleBackend, Vec<TerminalGlyph>) {
    let g = grid(6);
    let b = SimpleBackend::new(&g, 16, 16, 8, 3, 2, no_dirty, with_background);
    (b, g)
}

fn frame(b: &mut SimpleBackend, g: &Vec<TerminalGlyph>) -> Option<Vec<usize>> {
    b.update_dirty(g);
    let seen = match &b.dirty {
        DirtySet::All => None,
        DirtySet::Cells(v) => Some(v.clone()),
    };
    b.update_mesh(g);
    b.clear_dirty();
    seen
}

#[test]
fn glyph_quad_has_exact_corners() {
    let red = Rgba::new(255, 0, 0, 255);
    let cell = TerminalGlyph { glyph: 65, foreground: red, background: Rgba::new(0, 0, 0, 255) };
    let q = make_glyph_quad(3, 16, 4, cell);
    let v = |x: usize, y: usize, u: usize, w: usize| Vertex { x, y, layer: 1, color: red, u, v: w };
    assert_eq!(q, Quad {
        top_left: v(1, 1, 1, 4),
        top_right: v(2, 1, 2, 4),
        bottom_left: v(1, 2, 1, 5),
        bottom_right: v(2, 2, 2, 5),
    });
}

#[test]
fn first_update_rebuilds_everything() {
    let (mut b, g) = fresh(true, false);
    assert!(matches!(b.dirty, DirtySet::All));
    assert_eq!(frame(&mut b, &g), None);
}

#[test]
fn one_changed_cell_is_the_only_dirty_cell() {
    for with_background in [true, false] {
        let (mut b, mut g) = fresh(with_background, false);
        frame(&mut b, &g);
        g[4] = TerminalGlyph { glyph: 66, foreground: Rgba::new(1, 2, 3, 4), background: Rgba::new(5, 6, 7, 8) };
        assert_eq!(frame(&mut b, &g), Some(vec![4]));
        let rebuilt = SimpleBackend::new(&g, 16, 16, 8, 3, 2, false, with_background);
        assert_eq!(b.quads, rebuilt.quads);
    }
}

#[test]
fn changed_cells_are_listed_in_order() {
    let (mut b, mut g) = fresh(true, false);
    frame(&mut b, &g);
    g[5].glyph = 1;
    g[0].foreground = Rgba::new(0, 0, 0, 0);
    g[2].background = Rgba::new(9, 9, 9, 9);
    assert_eq!(frame(&mut b, &g), Some(vec![0, 2, 5]));
    let rebuilt = SimpleBackend::new(&g, 16, 16, 8, 3, 2, false, true);
    assert_eq!(b.quads, rebuilt.quads);
}

#[test]
fn disabled_optimization_marks_everything_dirty() {
    let (mut b, g) = fresh(false, true);
    assert_eq!(frame(&mut b, &g), None);
    assert_eq!(frame(&mut b, &g), None);
    assert_eq!(frame(&mut b, &g), None);
}

#[test]
fn second_update_without_changes_is_empty() {
    let (mut b, g) = fresh(true, false);
    frame(&mut b, &g);
    let quads = b.quads.clone();
    assert_eq!(frame(&mut b, &g), Some(vec![]));
    assert_eq!(b.quads, quads);
}

#[test]
fn console_update_keeps_mesh_current() {
    let fonts = vec![FontStore { chars_per_row: 16, n_rows: 16, font_height_pixels: 8 }];
    let mut c = SimpleConsole::new(0, 4, 2);
    c.initialize(&fonts, &vec![SimpleConsoleFeatures::WithoutBackground]);
    assert_eq!(c.update_mesh(), Ok(DirtySet::All));
    c.print(0, 1, "Hi").unwrap();
    assert_eq!(c.update_mesh(), Ok(DirtySet::Cells(vec![0, 1])));
    let b = c.back_end.as_ref().unwrap();
    assert!(matches!(&b.dirty, DirtySet::Cells(v) if v.is_empty()));
    let rebuilt = SimpleBackend::new(&c.terminal, 16, 16, 8, 4, 2, false, false);
    assert_eq!(b.quads, rebuilt.quads);
    assert_eq!(b.quads[0].top_left.u, 72 % 16);
    assert_eq!(b.quads[0].top_left.v, 72 / 16);
}

#[test]
fn index_buffer_has_two_triangles_per_quad() {
    let (b, _) = fresh(true, false);
    assert_eq!(b.indices.len(), 6 * 12);
    assert_eq!(&b.indices[0..12], &[0, 1, 2, 1, 3, 2, 4, 5, 6, 5, 7, 6]);
    assert_eq!(b.indices[71], 46);
    let (c, _) = fresh(false, false);
    assert_eq!(c.indices.len(), 6 * 6);
    assert_eq!(c.indices[35], 22);
}

#[test]
fn console_reports_each_frame_dirty_set() {
    let fonts = vec![FontStore { chars_per_row: 16, n_rows: 16, font_height_pixels: 8 }];
    let mut c = SimpleConsole::new(0, 3, 2);
    c.initialize(&fonts, &vec![]);
    assert_eq!(c.update_mesh(), Ok(DirtySet::All));
    let quads = c.back_end.as_ref().unwrap().quads.clone();
    assert_eq!(c.update_mesh(), Ok(DirtySet::Cells(vec![])));
    assert_eq!(c.back_end.as_ref().unwrap().quads, quads);
    c.set(2, 0, Rgba::new(1, 1, 1, 1), Rgba::new(2, 2, 2, 2), 3).unwrap();
    let i = c.at(2, 0);
    assert_eq!(c.update_mesh(), Ok(DirtySet::Cells(vec![i])));
    let b = c.back_end.as_ref().unwrap();
    let rebuilt = SimpleBackend::new(&c.terminal, 16, 16, 8, 3, 2, false, true);
    assert_eq!(b.quads, rebuilt.quads);
    for j in 0..6 {
        if j != i {
            assert_eq!(&b.quads[2 * j..2 * j + 2], &quads[2 * j..2 * j + 2]);
        }
    }
}

#[test]
fn console_without_optimization_reports_all_dirty() {
    let fonts = vec![FontStore { chars_per_row: 16, n_rows: 16, font_height_pixels: 8 }];
    let mut c = SimpleConsole::new(0, 3, 2);
    c.initialize(&fonts, &vec![SimpleConsoleFeatures::NoDirtyOptimization]);
    assert_eq!(c.update_mesh(), Ok(DirtySet::All));
    assert_eq!(c.update_mesh(), Ok(DirtySet::All));
    c.set(0, 0, Rgba::new(1, 1, 1, 1), Rgba::new(2, 2, 2, 2), 3).unwrap();
    assert_eq!(c.update_mesh(), Ok(DirtySet::All));
}
