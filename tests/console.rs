use simple_console::color::Rgba;
use simple_console::console::{ConsoleError, FontStore, SimpleConsole, SimpleConsoleFeatures};
use simple_console::cp437::{string_to_cp437, to_cp437};
use simple_console::glyph::TerminalGlyph;

fn white() -> Rgba {
    Rgba::new(255, 255, 255, 255)
}

fn black() -> Rgba {
    Rgba::new(0, 0, 0, 255)
}

fn cell(c: &SimpleConsole, x: usize, y: usize) -> TerminalGlyph {
    c.terminal[c.at(x, y)]
}

#[test]
fn new_console_is_blank() {
    let c = SimpleConsole::new(0, 5, 4);
    assert_eq!(c.terminal.len(), 20);
    for g in &c.terminal {
        assert_eq!(*g, TerminalGlyph { glyph: 32, foreground: white(), background: black() });
    }
    assert!(c.back_end.is_none());
}

#[test]
fn index_is_row_major_from_the_bottom() {
    let c = SimpleConsole::new(0, 5, 4);
    assert_eq!(c.at(0, 3), 0);
    assert_eq!(c.at(4, 0), 19);
    assert_eq!(c.at(0, 0), 15);
    assert_eq!(c.at(2, 1), 12);
    let mut seen = vec![false; 20];
    for y in 0..4 {
        for x in 0..5 {
            let i = c.at(x, y);
            assert!(!seen[i]);
            seen[i] = true;
        }
    }
}

#[test]
fn cls_blanks_glyphs_and_keeps_colors() {
    let mut c = SimpleConsole::new(0, 3, 2);
    let red = Rgba::new(255, 0, 0, 255);
    let blue = Rgba::new(0, 0, 255, 128);
    c.set(1, 1, red, blue, 65).unwrap();
    c.set(2, 0, blue, red, 66).unwrap();
    c.cls();
    assert_eq!(cell(&c, 1, 1), TerminalGlyph { glyph: 32, foreground: red, background: blue });
    assert_eq!(cell(&c, 2, 0), TerminalGlyph { glyph: 32, foreground: blue, background: red });
    assert_eq!(cell(&c, 0, 0), TerminalGlyph { glyph: 32, foreground: white(), background: black() });
}

#[test]
fn set_then_read_back() {
    let mut c = SimpleConsole::new(0, 3, 2);
    let before = c.terminal.clone();
    let fg = Rgba::new(1, 2, 3, 4);
    let bg = Rgba::new(5, 6, 7, 8);
    assert_eq!(c.set(2, 1, fg, bg, 7), Ok(()));
    let idx = c.at(2, 1);
    assert_eq!(c.terminal[idx], TerminalGlyph { glyph: 7, foreground: fg, background: bg });
    for i in 0..6 {
        if i != idx {
            assert_eq!(c.terminal[i], before[i]);
        }
    }
}

#[test]
fn set_out_of_bounds_is_refused() {
    let mut c = SimpleConsole::new(0, 3, 2);
    let before = c.terminal.clone();
    assert_eq!(c.set(3, 0, white(), black(), 1), Err(ConsoleError::OutOfBounds));
    assert_eq!(c.set(0, 2, white(), black(), 1), Err(ConsoleError::OutOfBounds));
    assert_eq!(c.terminal, before);
}

#[test]
fn print_writes_consecutive_cells() {
    let mut c = SimpleConsole::new(0, 4, 3);
    let red = Rgba::new(255, 0, 0, 255);
    c.set(1, 2, red, red, 1).unwrap();
    assert_eq!(c.print(1, 2, "AB"), Ok(()));
    assert_eq!(cell(&c, 1, 2), TerminalGlyph { glyph: 65, foreground: white(), background: black() });
    assert_eq!(cell(&c, 2, 2), TerminalGlyph { glyph: 66, foreground: white(), background: black() });
    assert_eq!(cell(&c, 3, 2).glyph, 32);
    assert_eq!(cell(&c, 0, 2).glyph, 32);
}

#[test]
fn print_past_the_row_is_refused() {
    let mut c = SimpleConsole::new(0, 4, 3);
    let before = c.terminal.clone();
    assert_eq!(c.print(3, 0, "AB"), Err(ConsoleError::OutOfBounds));
    assert_eq!(c.print(0, 3, "A"), Err(ConsoleError::OutOfBounds));
    assert_eq!(c.terminal, before);
    assert_eq!(c.print(2, 0, "AB"), Ok(()));
    assert_eq!(c.print(4, 0, ""), Ok(()));
}

#[test]
fn print_color_uses_given_colors() {
    let mut c = SimpleConsole::new(0, 4, 1);
    let fg = Rgba::new(10, 20, 30, 40);
    let bg = Rgba::new(50, 60, 70, 80);
    assert_eq!(c.print_color(0, 0, "Hi!", fg, bg), Ok(()));
    assert_eq!(c.terminal[0], TerminalGlyph { glyph: 72, foreground: fg, background: bg });
    assert_eq!(c.terminal[1], TerminalGlyph { glyph: 105, foreground: fg, background: bg });
    assert_eq!(c.terminal[2], TerminalGlyph { glyph: 33, foreground: fg, background: bg });
    assert_eq!(c.terminal[3].glyph, 32);
}

#[test]
fn print_encodes_code_page_437() {
    let mut c = SimpleConsole::new(0, 3, 1);
    assert_eq!(c.print(0, 0, "é☺█"), Ok(()));
    assert_eq!(c.terminal[0].glyph, 130);
    assert_eq!(c.terminal[1].glyph, 1);
    assert_eq!(c.terminal[2].glyph, 219);
}

#[test]
fn print_centered_counts_characters() {
    let mut c = SimpleConsole::new(0, 10, 2);
    assert_eq!(c.print_centered(1, "abcd"), Ok(()));
    assert_eq!(cell(&c, 3, 1).glyph, 97);
    assert_eq!(cell(&c, 6, 1).glyph, 100);
    assert_eq!(cell(&c, 2, 1).glyph, 32);
    let mut d = SimpleConsole::new(0, 5, 1);
    assert_eq!(d.print_centered(0, "ééé"), Ok(()));
    assert_eq!(d.terminal[1].glyph, 130);
    assert_eq!(d.terminal[3].glyph, 130);
    assert_eq!(d.terminal[4].glyph, 32);
    assert_eq!(d.print_centered(0, "abcdef"), Err(ConsoleError::OutOfBounds));
}

#[test]
fn draw_box_corners_edges_and_inside() {
    let mut c = SimpleConsole::new(0, 5, 4);
    let fg = Rgba::new(9, 9, 9, 255);
    let bg = Rgba::new(1, 1, 1, 255);
    c.set(1, 1, fg, fg, 88).unwrap();
    assert_eq!(c.draw_box(0, 0, 3, 2, fg, bg), Ok(()));
    let line = |g: char| TerminalGlyph { glyph: to_cp437(g), foreground: fg, background: bg };
    assert_eq!(cell(&c, 0, 0), line('┌'));
    assert_eq!(cell(&c, 3, 0), line('┐'));
    assert_eq!(cell(&c, 0, 2), line('└'));
    assert_eq!(cell(&c, 3, 2), line('┘'));
    assert_eq!(cell(&c, 0, 0).glyph, 218);
    assert_eq!(cell(&c, 3, 0).glyph, 191);
    assert_eq!(cell(&c, 0, 2).glyph, 192);
    assert_eq!(cell(&c, 3, 2).glyph, 217);
    for x in 1..3 {
        assert_eq!(cell(&c, x, 0), line('─'));
        assert_eq!(cell(&c, x, 2), line('─'));
    }
    assert_eq!(cell(&c, 0, 1), line('│'));
    assert_eq!(cell(&c, 3, 1), line('│'));
    let blank = TerminalGlyph { glyph: 32, foreground: white(), background: black() };
    assert_eq!(cell(&c, 1, 1), blank);
    assert_eq!(cell(&c, 2, 1), blank);
    assert_eq!(cell(&c, 4, 0), blank);
    assert_eq!(cell(&c, 0, 3), blank);
}

#[test]
fn draw_box_out_of_bounds_is_refused() {
    let mut c = SimpleConsole::new(0, 4, 3);
    let before = c.terminal.clone();
    assert_eq!(c.draw_box(0, 0, 4, 1, white(), black()), Err(ConsoleError::OutOfBounds));
    assert_eq!(c.draw_box(1, 1, 1, 2, white(), black()), Err(ConsoleError::OutOfBounds));
    assert_eq!(c.terminal, before);
}

#[test]
fn update_before_initialize_is_refused() {
    let mut c = SimpleConsole::new(0, 2, 2);
    assert_eq!(c.update_mesh(), Err(ConsoleError::BackendNotInitialized));
    assert!(c.back_end.is_none());
}

#[test]
fn initialize_picks_backend_from_features() {
    let fonts = vec![FontStore { chars_per_row: 16, n_rows: 16, font_height_pixels: 8 }];
    let mut c = SimpleConsole::new(0, 2, 2);
    c.initialize(&fonts, &vec![]);
    let b = c.back_end.as_ref().unwrap();
    assert!(b.with_background);
    assert!(!b.no_dirty_optimization);
    assert_eq!(b.quads.len(), 8);
    let mut d = SimpleConsole::new(0, 2, 2);
    d.initialize(&fonts, &vec![SimpleConsoleFeatures::WithoutBackground, SimpleConsoleFeatures::NoDirtyOptimization]);
    let b = d.back_end.as_ref().unwrap();
    assert!(!b.with_background);
    assert!(b.no_dirty_optimization);
    assert_eq!(b.quads.len(), 4);
}

#[test]
fn string_encoding_is_per_character() {
    assert_eq!(string_to_cp437("A ─"), vec![65, 32, 196]);
    assert_eq!(to_cp437('\u{20ac}'), 0);
    assert_eq!(to_cp437('~'), 126);
    assert_eq!(to_cp437('■'), 254);
}

#[test]
fn degenerate_boxes_keep_the_last_drawn_glyph() {
    let mut c = SimpleConsole::new(0, 4, 3);
    assert_eq!(c.draw_box(1, 0, 0, 0, white(), black()), Ok(()));
    assert_eq!(cell(&c, 1, 0).glyph, 217);
    assert_eq!(c.draw_box(3, 0, 0, 2, white(), black()), Ok(()));
    assert_eq!(cell(&c, 3, 0).glyph, 191);
    assert_eq!(cell(&c, 3, 1).glyph, 179);
    assert_eq!(cell(&c, 3, 2).glyph, 217);
    assert_eq!(c.draw_box(0, 2, 2, 0, white(), black()), Ok(()));
    assert_eq!(cell(&c, 0, 2).glyph, 192);
    assert_eq!(cell(&c, 1, 2).glyph, 196);
    assert_eq!(cell(&c, 2, 2).glyph, 217);
}

#[test]
fn default_cell_is_white_space_on_black() {
    assert_eq!(TerminalGlyph::default(), TerminalGlyph { glyph: 32, foreground: white(), background: black() });
    assert_eq!(TerminalGlyph::blank(), TerminalGlyph::default());
}

#[test]
fn empty_text_always_succeeds() {
    let mut c = SimpleConsole::new(0, 4, 3);
    let before = c.terminal.clone();
    assert_eq!(c.print(0, 3, ""), Ok(()));
    assert_eq!(c.print(9, 9, ""), Ok(()));
    assert_eq!(c.print_color(5, 0, "", white(), black()), Ok(()));
    assert_eq!(c.print_centered(7, ""), Ok(()));
    assert_eq!(c.terminal, before);
}

#[test]
fn empty_console_can_be_initialized() {
    let fonts = vec![FontStore { chars_per_row: 0, n_rows: 0, font_height_pixels: 0 }];
    let mut c = SimpleConsole::new(0, 0, 5);
    c.initialize(&fonts, &vec![]);
    assert_eq!(c.back_end.as_ref().unwrap().quads.len(), 0);
    assert_eq!(c.update_mesh().map(|_| ()), Ok(()));
}
