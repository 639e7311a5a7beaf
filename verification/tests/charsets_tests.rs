use clir_rs::charsets::{cell_bitmask_to_char_index, get_charset, CharsetWarnings, BRAILLE};

#[test]
fn braille_table_has_one_glyph_for_every_pattern() {
    let glyphs: Vec<char> = BRAILLE.chars().collect();
    assert_eq!(glyphs.len(), 256);
    assert_eq!(glyphs[0], ' ');
    for (i, glyph) in glyphs.iter().enumerate().skip(1) {
        assert_eq!(*glyph as u32, 0x2800 + i as u32);
    }
}

#[test]
fn every_raster_bit_moves_to_its_dot() {
    let moves = [(0, 0), (1, 3), (2, 1), (3, 4), (4, 2), (5, 5), (6, 6), (7, 7)];
    for (from, to) in moves {
        assert_eq!(cell_bitmask_to_char_index(1u8 << from), 1u8 << to);
    }
    assert_eq!(cell_bitmask_to_char_index(0), 0);
    assert_eq!(cell_bitmask_to_char_index(0xff), 0xff);
}

#[test]
fn remap_of_known_patterns() {
    assert_eq!(cell_bitmask_to_char_index(0b0111_1101), 0b0111_0111);
    assert_eq!(cell_bitmask_to_char_index(0b0000_0011), 0b0000_1001);
    assert_eq!(cell_bitmask_to_char_index(0b0101_0101), 0b0100_0111);
    assert_eq!(cell_bitmask_to_char_index(0b1010_1010), 0b1011_1000);
}

#[test]
fn remap_moves_bits_independently() {
    let moves = [0u8, 3, 1, 4, 2, 5, 6, 7];
    for mask in 0..=255u8 {
        let mut expected = 0u8;
        for (from, to) in moves.iter().enumerate() {
            if mask & (1 << from) != 0 {
                expected |= 1 << to;
            }
        }
        assert_eq!(cell_bitmask_to_char_index(mask), expected);
    }
}

#[test]
fn remap_is_a_bijection() {
    let mut reached = [0u32; 256];
    for mask in 0..=255u8 {
        reached[cell_bitmask_to_char_index(mask) as usize] += 1;
    }
    assert!(reached.iter().all(|count| *count == 1));
}

#[test]
fn left_column_of_a_cell_is_the_left_column_of_the_glyph() {
    // Pixels 0, 2, 4 and 6 are the left column; dots 1, 2, 3 and 7 show it.
    let index = cell_bitmask_to_char_index(0b0101_0101);
    assert_eq!(BRAILLE.chars().nth(index as usize), Some('⡇'));
    let index = cell_bitmask_to_char_index(0b1010_1010);
    assert_eq!(BRAILLE.chars().nth(index as usize), Some('⢸'));
    // The top row is pixels 0 and 1, the bottom row pixels 6 and 7.
    let index = cell_bitmask_to_char_index(0b0000_0011);
    assert_eq!(BRAILLE.chars().nth(index as usize), Some('⠉'));
    let index = cell_bitmask_to_char_index(0b1100_0000);
    assert_eq!(BRAILLE.chars().nth(index as usize), Some('⣀'));
}

#[test]
fn every_name_resolves_to_the_braille_table() {
    assert_eq!(get_charset("braille"), BRAILLE);
    assert_eq!(get_charset("classic"), BRAILLE);
    assert_eq!(get_charset(""), BRAILLE);
}

#[test]
fn warnings_are_distinct() {
    assert_ne!(CharsetWarnings::NoWarning, CharsetWarnings::NotEnoughCharacters);
}
