use clir_rs::ansi::{convert, paint, TermColor};
use clir_rs::cell::{cell_flatten_ab, CellGrid, CellPixels, ComputedCell};
use clir_rs::charsets::{cell_bitmask_to_char_index, CharsetWarnings, BRAILLE};
use clir_rs::color::{Color, ONE};
use clir_rs::outputs::{chars_of, compose, AsciiImageRenderer, PLACEHOLDER};
use clir_rs::raster::Raster;

fn grey(level: i32) -> Color {
    Color { r: level, g: level, b: level, a: ONE }
}

fn with_alpha(color: Color, a: i32) -> Color {
    Color { a, ..color }
}

fn cell(bitmask: u8) -> ComputedCell {
    ComputedCell { fore: Color::white(), back: Color::black(), bitmask }
}

fn braille() -> Vec<char> {
    BRAILLE.chars().collect()
}

/// An image of `cols` by `rows` cells; cell `i` is white in its first pixel
/// and black elsewhere when `i` is even, and all black when `i` is odd.
fn dotted_raster(cols: u32, rows: u32) -> Raster {
    let (width, height) = (cols * 2, rows * 4);
    let mut samples: Vec<u16> = Vec::new();
    for y in 0..height {
        for x in 0..width {
            let index = x / 2 + (y / 4) * cols;
            let lit = x % 2 == 0 && y % 4 == 0 && index % 2 == 0;
            let level = if lit { 65535 } else { 0 };
            samples.extend_from_slice(&[level, level, level, 65535]);
        }
    }
    Raster::from_raw(width, height, samples).unwrap()
}

#[test]
fn round_trip_from_pixels_to_glyph() {
    let pixels: CellPixels = [
        Color::white(),
        Color::black(),
        Color::white(),
        Color::white(),
        Color::white(),
        Color::white(),
        Color::white(),
        Color::black(),
    ];
    let (_, bitmask) = cell_flatten_ab(&pixels, &Color::white(), &Color::black());
    assert_eq!(bitmask, 0b0111_1101);
    let index = cell_bitmask_to_char_index(bitmask);
    assert_eq!(index, 0x77);
    let (text, warning) = compose(&vec![cell(bitmask)], 1, &braille(), false, 0);
    assert_eq!(text, "⡷\n");
    assert_eq!(warning, CharsetWarnings::NoWarning);
}

#[test]
fn chars_of_lists_the_characters() {
    assert_eq!(chars_of("a⡷b"), vec!['a', '⡷', 'b']);
    assert_eq!(chars_of(""), Vec::<char>::new());
    assert_eq!(chars_of(BRAILLE).len(), 256);
}

#[test]
fn plain_text_has_one_glyph_for_each_cell_and_a_break_after_each_row() {
    let cells: Vec<ComputedCell> = (0..6).map(|i| cell(i as u8)).collect();
    let (text, warning) = compose(&cells, 3, &braille(), false, 32768);
    assert_eq!(text, " ⠁⠈\n⠉⠂⠃\n");
    assert_eq!(warning, CharsetWarnings::NoWarning);
    let glyphs: Vec<char> = text.chars().collect();
    assert_eq!(glyphs.len(), 6 + 2);
    assert_eq!(glyphs.iter().filter(|c| **c != '\n').count(), 3 * 2);
    assert_eq!(glyphs[3], '\n');
    assert_eq!(glyphs[7], '\n');
}

#[test]
fn plain_text_of_other_shapes() {
    let cells: Vec<ComputedCell> = (0..6).map(|_| cell(0xff)).collect();
    assert_eq!(compose(&cells, 1, &braille(), false, 0).0, "⣿\n⣿\n⣿\n⣿\n⣿\n⣿\n");
    assert_eq!(compose(&cells, 6, &braille(), false, 0).0, "⣿⣿⣿⣿⣿⣿\n");
    assert_eq!(compose(&cells, 2, &braille(), false, 0).0, "⣿⣿\n⣿⣿\n⣿⣿\n");
    // A last row that is not full gets no line break.
    assert_eq!(compose(&cells, 4, &braille(), false, 0).0, "⣿⣿⣿⣿\n⣿⣿");
    assert_eq!(compose(&cells, 7, &braille(), false, 0).0, "⣿⣿⣿⣿⣿⣿");
}

#[test]
fn nothing_to_compose() {
    let (text, warning) = compose(&Vec::new(), 0, &braille(), true, 0);
    assert_eq!(text, "");
    assert_eq!(warning, CharsetWarnings::NoWarning);
    let (text, warning) = compose(&Vec::new(), 5, &Vec::new(), false, 0);
    assert_eq!(text, "");
    assert_eq!(warning, CharsetWarnings::NoWarning);
}

#[test]
fn rows_of_no_width_are_never_broken() {
    let cells = vec![cell(1), cell(2)];
    assert_eq!(compose(&cells, 0, &braille(), false, 0).0, "⠁⠈");
}

#[test]
fn a_short_table_gives_placeholders_and_a_warning() {
    let table = vec!['.', ':', '#'];
    let cells = vec![cell(0), cell(1), cell(4), cell(2), cell(0xff), cell(0)];
    // Patterns 0, 1 and 4 have the indices 0, 1 and 2; pattern 2 has index 8.
    let (text, warning) = compose(&cells, 3, &table, false, 0);
    assert_eq!(text, ".:#\n??.\n");
    assert_eq!(warning, CharsetWarnings::NotEnoughCharacters);
    assert_eq!(PLACEHOLDER, '?');
}

#[test]
fn a_table_that_is_just_long_enough_gives_no_warning() {
    let table = vec!['.', ':', '#'];
    let cells = vec![cell(4), cell(1), cell(0)];
    let (text, warning) = compose(&cells, 3, &table, false, 0);
    assert_eq!(text, "#:.\n");
    assert_eq!(warning, CharsetWarnings::NoWarning);
    // The index equal to the length of the table has no glyph.
    let (text, warning) = compose(&vec![cell(1), cell(4)], 2, &vec!['.', ':'], false, 0);
    assert_eq!(text, ":?\n");
    assert_eq!(warning, CharsetWarnings::NotEnoughCharacters);
}

#[test]
fn the_warning_stays_once_raised() {
    let table = vec!['.'];
    let cells = vec![cell(0xff), cell(0), cell(0), cell(0)];
    let (text, warning) = compose(&cells, 4, &table, false, 0);
    assert_eq!(text, "?...\n");
    assert_eq!(warning, CharsetWarnings::NotEnoughCharacters);
}

#[test]
fn an_empty_table_gives_only_placeholders() {
    let cells = vec![
        cell(0),
        ComputedCell { fore: Color::transparent(), back: Color::transparent(), bitmask: 0 },
    ];
    let (text, warning) = compose(&cells, 2, &Vec::new(), false, ONE / 2);
    assert_eq!(text, "??\n");
    assert_eq!(warning, CharsetWarnings::NotEnoughCharacters);
    let (text, warning) = compose(&cells[1..].to_vec(), 1, &Vec::new(), true, ONE / 2);
    assert_eq!(text, "?\n");
    assert_eq!(warning, CharsetWarnings::NotEnoughCharacters);
}

#[test]
fn colored_cells_are_painted_fore_on_back() {
    let one = ComputedCell { fore: grey(61440), back: grey(12288), bitmask: 0b0111_1101 };
    let (text, warning) = compose(&vec![one], 1, &braille(), true, ONE / 2);
    assert_eq!(text, "\x1b[48;2;48;48;48;38;2;239;239;239m⡷\x1b[0m\n");
    assert_eq!(warning, CharsetWarnings::NoWarning);
}

#[test]
fn colored_cells_with_a_transparent_background_are_painted_fore_only() {
    let fore = Color { r: ONE, g: 0, b: 32768, a: ONE };
    let one = ComputedCell { fore, back: with_alpha(Color::white(), 100), bitmask: 1 };
    let (text, _) = compose(&vec![one], 1, &braille(), true, ONE / 2);
    assert_eq!(text, "\x1b[38;2;255;0;128m⠁\x1b[0m\n");
    // An opaque background is painted even where the foreground is transparent.
    let other = ComputedCell { fore: with_alpha(fore, 0), back: Color::white(), bitmask: 1 };
    let (text, _) = compose(&vec![other], 1, &braille(), true, ONE / 2);
    assert_eq!(text, "\x1b[48;2;255;255;255;38;2;0;0;0m⠁\x1b[0m\n");
}

#[test]
fn transparent_cells_are_blank_and_unstyled() {
    for bitmask in [0u8, 1, 0b0111_1101, 0xff] {
        let one = ComputedCell {
            fore: with_alpha(Color::white(), 0),
            back: with_alpha(Color::black(), 0),
            bitmask,
        };
        let (text, warning) = compose(&vec![one], 1, &braille(), true, ONE / 2);
        assert_eq!(text, " \n");
        assert_eq!(warning, CharsetWarnings::NoWarning);
        let (text, _) = compose(&vec![one], 1, &vec!['_', 'x'], true, ONE / 2);
        assert_eq!(text, "_\n");
    }
}

#[test]
fn the_threshold_itself_is_opaque() {
    let at = ComputedCell {
        fore: with_alpha(Color::white(), 32768),
        back: with_alpha(Color::white(), 32768),
        bitmask: 0,
    };
    let (text, _) = compose(&vec![at], 1, &braille(), true, 32768);
    assert_eq!(text, "\x1b[48;2;128;128;128;38;2;128;128;128m \x1b[0m\n");
    let below = ComputedCell {
        fore: with_alpha(Color::white(), 32767),
        back: with_alpha(Color::white(), 32767),
        bitmask: 0xff,
    };
    let (text, _) = compose(&vec![below], 1, &braille(), true, 32768);
    assert_eq!(text, " \n");
    // With a threshold of zero nothing is transparent.
    let (text, _) = compose(&vec![below], 1, &braille(), true, 0);
    assert_eq!(text, "\x1b[48;2;127;127;127;38;2;127;127;127m⣿\x1b[0m\n");
}

#[test]
fn a_transparent_cell_with_a_missing_glyph_still_warns() {
    let one = ComputedCell {
        fore: with_alpha(Color::white(), 0),
        back: with_alpha(Color::black(), 0),
        bitmask: 0xff,
    };
    let (text, warning) = compose(&vec![one], 1, &vec!['_'], true, ONE / 2);
    assert_eq!(text, "_\n");
    assert_eq!(warning, CharsetWarnings::NotEnoughCharacters);
}

#[test]
fn paint_writes_the_escape_sequences() {
    assert_eq!(paint(TermColor::RGB(1, 20, 255), None, 'x'), "\x1b[38;2;1;20;255mx\x1b[0m");
    assert_eq!(
        paint(TermColor::RGB(0, 9, 10), Some(TermColor::RGB(99, 100, 199)), '⡷'),
        "\x1b[48;2;99;100;199;38;2;0;9;10m⡷\x1b[0m"
    );
    assert_eq!(paint(TermColor::Fixed(7), None, 'y'), "\x1b[38;5;7my\x1b[0m");
    assert_eq!(
        paint(TermColor::Fixed(231), Some(TermColor::Fixed(16)), 'z'),
        "\x1b[48;5;16;38;5;231mz\x1b[0m"
    );
    assert_eq!(
        paint(TermColor::RGB(200, 201, 202), Some(TermColor::Fixed(100)), ' '),
        "\x1b[48;5;100;38;2;200;201;202m \x1b[0m"
    );
}

#[test]
fn convert_keeps_true_colors() {
    assert_eq!(convert(Color::white(), true), TermColor::RGB(255, 255, 255));
    assert_eq!(convert(Color::black(), true), TermColor::RGB(0, 0, 0));
    assert_eq!(convert(with_alpha(Color::white(), ONE / 2), true), TermColor::RGB(128, 128, 128));
    let c = Color { r: 24416, g: 34696, b: 44976, a: ONE };
    assert_eq!(convert(c, true), TermColor::RGB(95, 135, 175));
}

#[test]
fn convert_looks_other_colors_up_in_the_palette() {
    assert_eq!(convert(Color::white(), false), TermColor::Fixed(231));
    assert_eq!(convert(Color::black(), false), TermColor::Fixed(16));
    let c = Color { r: 24416, g: 34696, b: 44976, a: ONE };
    assert_eq!(convert(c, false), TermColor::Fixed(67));
    let purple = Color { r: 44976, g: 0, b: 55256, a: ONE };
    assert_eq!(convert(purple, true), TermColor::RGB(175, 0, 215));
    assert_eq!(convert(purple, false), TermColor::Fixed(128));
}

#[test]
fn grids_render_with_the_braille_table_by_default() {
    let grid = CellGrid::from(&dotted_raster(3, 2));
    let computed = grid.to_computed_ab(&Color::white(), &Color::black(), false);
    assert_eq!((computed.width(), computed.height()), (3, 2));
    assert_eq!(computed.cells.len(), 6);
    assert_eq!(computed.cells[0], cell(1));
    assert_eq!(computed.cells[1], cell(0));
    let (text, warning) = computed.to_string(false, None, 0);
    assert_eq!(text, "⠁ ⠁\n ⠁ \n");
    assert_eq!(warning, CharsetWarnings::NoWarning);
    assert_eq!(AsciiImageRenderer::render(&computed, false, None, 0), (text, warning));
    let (text, warning) = AsciiImageRenderer::render(&computed, false, Some(".o"), 0);
    assert_eq!(text, "o.o\n.o.\n");
    assert_eq!(warning, CharsetWarnings::NoWarning);
    let (text, warning) = computed.to_string(false, Some("."), 0);
    assert_eq!(text, "?.?\n.?.\n");
    assert_eq!(warning, CharsetWarnings::NotEnoughCharacters);
}

#[test]
fn inverting_exchanges_the_colors_before_the_pixels_are_classified() {
    let grid = CellGrid::from(&dotted_raster(2, 1));
    let computed = grid.to_computed_ab(&Color::white(), &Color::black(), true);
    assert_eq!(
        computed.cells[0],
        ComputedCell { fore: Color::black(), back: Color::white(), bitmask: 0b1111_1110 }
    );
    assert_eq!(
        computed.cells[1],
        ComputedCell { fore: Color::black(), back: Color::white(), bitmask: 0xff }
    );
    assert_eq!(computed.to_string(false, None, 0).0, "⣾⣿\n");
}

#[test]
fn grids_are_reduced_to_their_own_contrast_pairs() {
    let grid = CellGrid::from(&dotted_raster(2, 1));
    let computed = grid.to_computed(false);
    // One white pixel among seven black ones: the mean is one eighth grey.
    let lit = ComputedCell { fore: grey(51200), back: grey(2048), bitmask: 1 };
    assert_eq!(computed.cells[0], lit);
    // A black cell is black twice, and every pixel goes to the foreground.
    let dark = ComputedCell { fore: Color::black(), back: Color::black(), bitmask: 0xff };
    assert_eq!(computed.cells[1], dark);
    let inverted = grid.to_computed(true);
    assert_eq!(
        inverted.cells[0],
        ComputedCell { fore: grey(2048), back: grey(51200), bitmask: 0b1111_1110 }
    );
    let (text, _) = computed.to_string(true, None, ONE / 2);
    assert_eq!(
        text,
        "\x1b[48;2;8;8;8;38;2;199;199;199m⠁\x1b[0m\x1b[48;2;0;0;0;38;2;0;0;0m⣿\x1b[0m\n"
    );
}

#[test]
fn print_bw_test() {
    let img = dotted_raster(4, 3);
    let cells = CellGrid::from(&img);
    let computed = cells.to_computed_ab(&Color::white(), &Color::transparent(), false);
    let (s, _) = AsciiImageRenderer::render(&computed, false, None, 16384);
    println!("{}", s);
    assert_eq!(s, "⠁ ⠁ \n⠁ ⠁ \n⠁ ⠁ \n");
}

#[test]
fn print_colored_test() {
    let img = dotted_raster(2, 2);
    let cells = CellGrid::from(&img);
    let computed = cells.to_computed(false);
    let (s, _) = AsciiImageRenderer::render(&computed, true, None, 16384);
    println!("{}", s);
    let lit = "\x1b[48;2;8;8;8;38;2;199;199;199m⠁\x1b[0m";
    let dark = "\x1b[48;2;0;0;0;38;2;0;0;0m⣿\x1b[0m";
    assert_eq!(s, format!("{}{}\n{}{}\n", lit, dark, lit, dark));
    println!(
        "Image size ({}x{}) | Cells count: {} ({}x{})",
        img.width(),
        img.height(),
        cells.len(),
        cells.width(),
        cells.height()
    );
}
