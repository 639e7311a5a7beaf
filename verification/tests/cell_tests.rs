use clir_rs::cell::{
    cell_flatten_ab, compute_minmax_contrast, round_cells, round_cells_with_ab, CellGrid,
    CellPixels, CELL_H, CELL_LEN, CELL_W,
};
use clir_rs::color::{Color, ONE};
use clir_rs::raster::Raster;

fn grey(level: i32) -> Color {
    Color { r: level, g: level, b: level, a: ONE }
}

fn sample_raster(width: u32, height: u32) -> Raster {
    // Every pixel tells its own place: red holds the column, green the row.
    let mut samples: Vec<u16> = Vec::new();
    for y in 0..height {
        for x in 0..width {
            samples.extend_from_slice(&[x as u16, y as u16, 7, 65535]);
        }
    }
    Raster::from_raw(width, height, samples).unwrap()
}

fn place(x: i32, y: i32) -> Color {
    Color { r: x, g: y, b: 7, a: ONE }
}

fn pattern() -> CellPixels {
    [
        Color::white(),
        Color::black(),
        Color::white(),
        Color::white(),
        Color::white(),
        Color::white(),
        Color::white(),
        Color::black(),
    ]
}

#[test]
fn cell_geometry() {
    assert_eq!(CELL_W, 2);
    assert_eq!(CELL_H, 4);
    assert_eq!(CELL_LEN, 8);
}

#[test]
fn flatten_sets_one_bit_per_pixel_of_the_first_color() {
    let (rounded, bitmask) = cell_flatten_ab(&pattern(), &Color::white(), &Color::black());
    assert_eq!(bitmask, 0b0111_1101);
    assert_eq!(rounded, pattern());
    assert_eq!(bitmask.count_ones(), 6);
}

#[test]
fn flatten_replaces_each_pixel_by_the_nearer_color() {
    let cell: CellPixels = [
        grey(10),
        grey(60000),
        grey(32767),
        grey(32769),
        grey(0),
        grey(ONE),
        grey(40000),
        grey(20000),
    ];
    let (rounded, bitmask) = cell_flatten_ab(&cell, &Color::white(), &Color::black());
    let w = Color::white();
    let b = Color::black();
    assert_eq!(rounded, [b, w, b, w, b, w, w, b]);
    assert_eq!(bitmask, 0b0110_1010);
}

#[test]
fn flatten_bit_zero_is_the_first_pixel_and_bit_seven_the_last() {
    let w = Color::white();
    let b = Color::black();
    for p in 0..8 {
        let mut cell: CellPixels = [b; 8];
        cell[p] = w;
        let (_, bitmask) = cell_flatten_ab(&cell, &w, &b);
        assert_eq!(bitmask, 1u8 << p);
    }
}

#[test]
fn flatten_gives_ties_to_the_first_color() {
    let cell: CellPixels = [grey(32768); 8];
    let (rounded, bitmask) = cell_flatten_ab(&cell, &Color::white(), &Color::black());
    assert_eq!(bitmask, 0xff);
    assert_eq!(rounded, [Color::white(); 8]);
    let (rounded, bitmask) = cell_flatten_ab(&cell, &Color::black(), &Color::white());
    assert_eq!(bitmask, 0xff);
    assert_eq!(rounded, [Color::black(); 8]);
}

#[test]
fn flatten_with_the_colors_exchanged_inverts_the_mask() {
    let cell: CellPixels = [
        grey(10),
        grey(60000),
        grey(32767),
        grey(32769),
        grey(0),
        grey(ONE),
        grey(40000),
        grey(20000),
    ];
    let (_, mask) = cell_flatten_ab(&cell, &Color::white(), &Color::black());
    let (_, flipped) = cell_flatten_ab(&cell, &Color::black(), &Color::white());
    assert_eq!(flipped, !mask);
    let (_, mask) = cell_flatten_ab(&pattern(), &Color::white(), &Color::black());
    let (_, flipped) = cell_flatten_ab(&pattern(), &Color::black(), &Color::white());
    assert_eq!(flipped, !mask);
    assert_eq!(flipped, 0b1000_0010);
}

#[test]
fn flatten_against_equal_colors_fills_the_mask() {
    let c = grey(1234);
    let (rounded, bitmask) = cell_flatten_ab(&pattern(), &c, &c);
    assert_eq!(bitmask, 0xff);
    assert_eq!(rounded, [c; 8]);
}

#[test]
fn mask_has_as_many_bits_as_pixels_went_to_the_first_color() {
    let cell: CellPixels = [
        grey(1),
        grey(50000),
        grey(2),
        grey(3),
        grey(65000),
        grey(4),
        grey(5),
        grey(33000),
    ];
    let a = Color::white();
    let b = Color::black();
    let (rounded, bitmask) = cell_flatten_ab(&cell, &a, &b);
    let went_to_a = rounded.iter().filter(|c| **c == a).count();
    assert_eq!(went_to_a, 3);
    assert_eq!(bitmask.count_ones() as usize, went_to_a);
    assert_eq!(bitmask, 0b1001_0010);
}

#[test]
fn contrast_blends_the_mean_toward_both_extremes() {
    let (fore, back) = compute_minmax_contrast(&pattern());
    assert_eq!(fore, grey(61440));
    assert_eq!(back, grey(12288));
}

#[test]
fn contrast_of_a_uniform_cell_is_its_color_twice() {
    for c in [grey(1234), Color::black(), Color { r: 5, g: 60000, b: 77, a: 100 }] {
        let cell: CellPixels = [c; 8];
        let (fore, back) = compute_minmax_contrast(&cell);
        assert_eq!(fore, c);
        assert_eq!(back, c);
        let (rounded, bitmask) = cell_flatten_ab(&cell, &fore, &back);
        assert_eq!(bitmask, 0xff);
        assert_eq!(rounded, cell);
    }
}

#[test]
fn contrast_of_a_transparent_or_white_cell_keeps_a_default_extreme() {
    // Nothing is farther from transparent black than itself, so the bright
    // extreme stays opaque white.
    let (fore, back) = compute_minmax_contrast(&[Color::transparent(); 8]);
    assert_eq!(fore, Color { r: 49152, g: 49152, b: 49152, a: 49152 });
    assert_eq!(back, Color::transparent());
    // Nothing is farther from opaque white than itself, so the dark extreme
    // stays opaque black.
    let (fore, back) = compute_minmax_contrast(&[Color::white(); 8]);
    assert_eq!(fore, Color::white());
    assert_eq!(back, grey(16384));
}

#[test]
fn contrast_keeps_the_first_of_equal_extremes() {
    // Red and green are equally far from transparent black and from white.
    let red = Color { r: ONE, g: 0, b: 0, a: ONE };
    let green = Color { r: 0, g: ONE, b: 0, a: ONE };
    let cell: CellPixels = [red, green, green, red, green, red, green, red];
    let (fore, back) = compute_minmax_contrast(&cell);
    // The mean is (0.5, 0.5, 0, 1); the first pixel is the bright extreme and
    // the second, the first one compared against white, the dark extreme.
    assert_eq!(fore, Color { r: 57344, g: 8192, b: 0, a: ONE });
    assert_eq!(back, Color { r: 8192, g: 57344, b: 0, a: ONE });
}

#[test]
fn contrast_compares_a_new_bright_extreme_against_nothing_else() {
    // The second pixel is the farthest from white, but it also moves the
    // bright extreme, so it is not taken as the dark one.
    let dim = Color { r: 100, g: 100, b: 100, a: 100 };
    let dark = Color { r: 0, g: 0, b: 0, a: 2 * ONE };
    let cell: CellPixels = [dim, dark, dim, dim, dim, dim, dim, dim];
    let (fore, back) = compute_minmax_contrast(&cell);
    // Mean: r = 700 / 8 = 87, a = (700 + 131072) / 8 = 16471.
    let mean = Color { r: 87, g: 87, b: 87, a: 16471 };
    assert_eq!(fore, mean.lerp(dark, 49152));
    assert_eq!(back, mean.lerp(dim, 49152));
    assert_eq!(fore, Color { r: 22, g: 22, b: 22, a: 102421 });
    assert_eq!(back, Color { r: 96, g: 96, b: 96, a: 4193 });
}

#[test]
fn contrast_handles_the_largest_channels() {
    let top = Color { r: i32::MAX, g: i32::MAX, b: i32::MAX, a: i32::MAX };
    let bottom = Color { r: i32::MIN, g: i32::MIN, b: i32::MIN, a: i32::MIN };
    assert_eq!(compute_minmax_contrast(&[top; 8]), (top, top));
    assert_eq!(compute_minmax_contrast(&[bottom; 8]), (bottom, bottom));
}

#[test]
fn round_cells_rounds_to_the_contrast_pair() {
    let mut cells: Vec<CellPixels> = vec![pattern(), [grey(500); 8]];
    round_cells(&mut cells);
    let f = grey(61440);
    let b = grey(12288);
    assert_eq!(cells[0], [f, b, f, f, f, f, f, b]);
    assert_eq!(cells[1], [grey(500); 8]);
}

#[test]
fn round_cells_with_ab_rounds_to_the_given_pair() {
    let mut cells: Vec<CellPixels> = vec![pattern(), [grey(500); 8], [grey(40000); 8]];
    round_cells_with_ab(&mut cells, &Color::white(), &Color::transparent());
    let w = Color::white();
    let t = Color::transparent();
    assert_eq!(cells[0], [w, t, w, w, w, w, w, t]);
    assert_eq!(cells[1], [t; 8]);
    assert_eq!(cells[2], [w; 8]);
    let mut none: Vec<CellPixels> = Vec::new();
    round_cells_with_ab(&mut none, &w, &t);
    assert!(none.is_empty());
}

#[test]
fn samples_become_fixed_point_channels() {
    let raster = Raster::from_raw(1, 1, vec![0, 32767, 32768, 65535]).unwrap();
    assert_eq!(raster.color_at(0, 0), Color { r: 0, g: 32767, b: 32769, a: ONE });
    assert_eq!(raster.width(), 1);
    assert_eq!(raster.height(), 1);
}

#[test]
fn raster_needs_four_samples_for_every_pixel() {
    assert!(Raster::from_raw(2, 2, vec![0; 16]).is_some());
    assert!(Raster::from_raw(2, 2, vec![0; 15]).is_none());
    assert!(Raster::from_raw(2, 2, vec![0; 17]).is_some());
    assert!(Raster::from_raw(0, 5, Vec::new()).is_some());
    assert!(Raster::from_raw(1, 1, Vec::new()).is_none());
}

#[test]
fn raster_reads_pixels_row_by_row() {
    let raster = sample_raster(5, 3);
    for y in 0..3 {
        for x in 0..5 {
            assert_eq!(raster.color_at(x, y), place(x as i32, y as i32));
        }
    }
}

#[test]
fn partition_of_exact_multiples_keeps_every_pixel() {
    let raster = sample_raster(6, 8);
    let grid = CellGrid::from(&raster);
    assert_eq!(grid.width(), 3);
    assert_eq!(grid.height(), 2);
    assert_eq!(grid.len(), 6);
    assert_eq!(grid.len(), (6 / CELL_W) * (8 / CELL_H));
    for y in 0..8usize {
        for x in 0..6usize {
            let cell = grid.cells[x / 2 + (y / 4) * 3];
            assert_eq!(cell[x % 2 + (y % 4) * 2], place(x as i32, y as i32));
        }
    }
}

#[test]
fn partition_orders_the_pixels_of_a_cell_row_by_row() {
    let grid = CellGrid::from(&sample_raster(4, 4));
    assert_eq!(
        grid.cells[1],
        [
            place(2, 0),
            place(3, 0),
            place(2, 1),
            place(3, 1),
            place(2, 2),
            place(3, 2),
            place(2, 3),
            place(3, 3),
        ]
    );
}

#[test]
fn partition_drops_the_remainder() {
    let grid = CellGrid::from(&sample_raster(7, 11));
    assert_eq!(grid.width(), 3);
    assert_eq!(grid.height(), 2);
    assert_eq!(grid.len(), 6);
    // The last cell ends at column 5 and row 7.
    assert_eq!(grid.cells[5][7], place(5, 7));
    assert_eq!(grid.cells[5][0], place(4, 4));
}

#[test]
fn partition_of_a_small_image_is_empty() {
    for (w, h) in [(0, 0), (1, 8), (6, 3), (1, 3), (0, 9), (9, 0)] {
        let grid = CellGrid::from(&sample_raster(w, h));
        assert_eq!(grid.len(), 0);
        assert_eq!(grid.width(), (w / 2) as usize);
        assert_eq!(grid.height(), (h / 4) as usize);
        assert!(grid.cells.is_empty());
    }
}

#[test]
fn image_bytes_undo_the_partition() {
    let raster = sample_raster(6, 8);
    let grid = CellGrid::from(&raster);
    let (pixels, im_w, im_h) = grid.as_image_bytes();
    assert_eq!((im_w, im_h), (6, 8));
    assert_eq!(pixels.len(), 48);
    for y in 0..8 {
        for x in 0..6 {
            assert_eq!(pixels[x + y * 6], place(x as i32, y as i32));
        }
    }
}

#[test]
fn image_bytes_of_a_cropped_image() {
    let grid = CellGrid::from(&sample_raster(5, 6));
    let (pixels, im_w, im_h) = grid.as_image_bytes();
    assert_eq!((im_w, im_h), (4, 4));
    assert_eq!(pixels.len(), 16);
    assert_eq!(pixels[0], place(0, 0));
    assert_eq!(pixels[15], place(3, 3));
    let empty = CellGrid::from(&sample_raster(1, 1));
    assert_eq!(empty.as_image_bytes(), (Vec::new(), 0, 0));
}

#[test]
fn generate_cell_test() {
    let img = sample_raster(64, 48);
    let cells = CellGrid::from(&img);
    println!(
        "Image size ({}x{}) | Cells count: {}",
        img.width(),
        img.height(),
        cells.len()
    );
    assert_eq!(cells.len(), 32 * 12);
}

#[test]
fn round_cell_test() {
    let img = sample_raster(64, 48);
    let mut cells = CellGrid::from(&img);
    round_cells(&mut cells.cells);
    assert_eq!(cells.len(), 32 * 12);
    for cell in &cells.cells {
        let mut seen: Vec<Color> = Vec::new();
        for pixel in cell {
            if !seen.contains(pixel) {
                seen.push(*pixel);
            }
        }
        assert!(seen.len() <= 2);
    }
}

#[test]
fn round_cell_bw_test() {
    let img = sample_raster(64, 48);
    let mut cells = CellGrid::from(&img);
    round_cells_with_ab(&mut cells.cells, &Color::white(), &Color::transparent());
    assert_eq!(cells.len(), 32 * 12);
    for cell in &cells.cells {
        for pixel in cell {
            assert!(*pixel == Color::white() || *pixel == Color::transparent());
        }
    }
    let (pixels, im_w, im_h) = cells.as_image_bytes();
    assert_eq!((pixels.len(), im_w, im_h), (64 * 48, 64, 48));
}

#[test]
fn checked_image_bytes_refuses_a_grid_that_lost_its_shape() {
    let mut grid = CellGrid::from(&sample_raster(6, 8));
    let whole = grid.checked_image_bytes();
    assert_eq!(whole, Some(grid.as_image_bytes()));
    assert_eq!(whole.unwrap().0.len(), 48);
    grid.cells.push([Color::white(); 8]);
    assert_eq!(grid.checked_image_bytes(), None);
    grid.cells.truncate(5);
    assert_eq!(grid.checked_image_bytes(), None);
    grid.cells.push([Color::white(); 8]);
    assert!(grid.checked_image_bytes().is_some());
    let mut empty = CellGrid::from(&sample_raster(1, 9));
    assert_eq!(empty.checked_image_bytes(), Some((Vec::new(), 0, 8)));
    empty.cells.push([Color::black(); 8]);
    assert_eq!(empty.checked_image_bytes(), None);
}
