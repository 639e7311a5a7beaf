//! Glyph tables, and the glyph index that belongs to a dot pattern.
use vstd::prelude::*;

verus! {

/// The 256 eight-dot Braille patterns, ordered by code point. The blank
/// pattern at index zero is an ordinary space.
pub const BRAILLE: &'static str =
    " ⠁⠂⠃⠄⠅⠆⠇⠈⠉⠊⠋⠌⠍⠎⠏⠐⠑⠒⠓⠔⠕⠖⠗⠘⠙⠚⠛⠜⠝⠞⠟⠠⠡⠢⠣⠤⠥⠦⠧⠨⠩⠪⠫⠬⠭⠮⠯⠰⠱⠲⠳⠴⠵⠶⠷⠸⠹⠺⠻⠼⠽⠾⠿⡀⡁⡂⡃⡄⡅⡆⡇⡈⡉⡊⡋⡌⡍⡎⡏⡐⡑⡒⡓⡔⡕⡖⡗⡘⡙⡚⡛⡜⡝⡞⡟⡠⡡⡢⡣⡤⡥⡦⡧⡨⡩⡪⡫⡬⡭⡮⡯⡰⡱⡲⡳⡴⡵⡶⡷⡸⡹⡺⡻⡼⡽⡾⡿⢀⢁⢂⢃⢄⢅⢆⢇⢈⢉⢊⢋⢌⢍⢎⢏⢐⢑⢒⢓⢔⢕⢖⢗⢘⢙⢚⢛⢜⢝⢞⢟⢠⢡⢢⢣⢤⢥⢦⢧⢨⢩⢪⢫⢬⢭⢮⢯⢰⢱⢲⢳⢴⢵⢶⢷⢸⢹⢺⢻⢼⢽⢾⢿⣀⣁⣂⣃⣄⣅⣆⣇⣈⣉⣊⣋⣌⣍⣎⣏⣐⣑⣒⣓⣔⣕⣖⣗⣘⣙⣚⣛⣜⣝⣞⣟⣠⣡⣢⣣⣤⣥⣦⣧⣨⣩⣪⣫⣬⣭⣮⣯⣰⣱⣲⣳⣴⣵⣶⣷⣸⣹⣺⣻⣼⣽⣾⣿";

/// What went wrong, recoverably, while text was composed.
#[derive(Clone, Copy, Debug, PartialEq, Eq, Structural)]
pub enum CharsetWarnings {
    NoWarning,
    NotEnoughCharacters,
}

/// Picks a glyph table by name. The Braille patterns are the only table, so
/// every name resolves to them.
pub fn get_charset(name: &str) -> (table: &'static str)
    ensures
        table@ == BRAILLE@,
{
    BRAILLE
}

/// True when bit `p` of `x` is set.
pub open spec fn bit_is_set(x: u8, p: u8) -> bool {
    (x >> p) & 1 == 1
}

/// The bit of a glyph index that stands for the pixel at raster position
/// `p` of a cell. Pixels are numbered row by row; the dots of a Braille
/// pattern are numbered down the left column, then down the right column,
/// with the bottom row last.
pub open spec fn dot_bit(p: u8) -> u8 {
    if p == 1 {
        3
    } else if p == 2 {
        1
    } else if p == 3 {
        4
    } else if p == 4 {
        2
    } else {
        p
    }
}

/// The glyph index that shows the dot pattern `mask`.
pub open spec fn glyph_index(mask: u8) -> u8 {
    (mask & 0b11100001) | ((mask & 0b00010000) >> 2) | ((mask & 0b00001000) << 1) | ((mask
        & 0b00000100) >> 1) | ((mask & 0b00000010) << 2)
}

/// The dot pattern that the glyph at `index` shows: the inverse of
/// `glyph_index`.
pub open spec fn dot_pattern(index: u8) -> u8 {
    (index & 0b11100001) | ((index & 0b00000100) << 2) | ((index & 0b00010000) >> 1) | ((index
        & 0b00000010) << 1) | ((index & 0b00001000) >> 2)
}

/// Gives the index of the glyph that shows the raster-ordered dot pattern of
/// a cell.
pub fn cell_bitmask_to_char_index(bitmask_: u8) -> (index: u8)
    ensures
        index == glyph_index(bitmask_),
        forall|p: u8| p < 8 ==> bit_is_set(index, dot_bit(p)) == bit_is_set(bitmask_, p),
{
    let bitmask: u8 = bitmask_;
    let mut result: u8 = 0;
    result |= bitmask & 0b11100001;
    result |= (bitmask & 0b00010000) >> 2;
    result |= (bitmask & 0b00001000) << 1;
    result |= (bitmask & 0b00000100) >> 1;
    result |= (bitmask & 0b00000010) << 2;
    proof {
        assert(result == glyph_index(bitmask)) by (bit_vector)
            requires
                result == ((((0u8 | (bitmask & 0b11100001)) | ((bitmask & 0b00010000) >> 2)) | ((
                bitmask & 0b00001000) << 1)) | ((bitmask & 0b00000100) >> 1)) | ((bitmask
                    & 0b00000010) << 2),
        ;
        lemma_glyph_index_moves_bits(bitmask);
    }
    result
}

/// Every bit of a dot pattern reappears in the glyph index at the place that
/// `dot_bit` gives.
pub proof fn lemma_glyph_index_moves_bits(mask: u8)
    ensures
        forall|p: u8| p < 8 ==> bit_is_set(glyph_index(mask), dot_bit(p)) == bit_is_set(mask, p),
{
    assert forall|p: u8| p < 8 implies bit_is_set(glyph_index(mask), dot_bit(p)) == bit_is_set(
        mask,
        p,
    ) by {
        let q = dot_bit(p);
        let index = glyph_index(mask);
        assert(((index >> q) & 1 == 1) == ((mask >> p) & 1 == 1)) by (bit_vector)
            requires
                p < 8,
                q == if p == 1 {
                    3u8
                } else if p == 2 {
                    1u8
                } else if p == 3 {
                    4u8
                } else if p == 4 {
                    2u8
                } else {
                    p
                },
                index == (mask & 0b11100001) | ((mask & 0b00010000) >> 2) | ((mask & 0b00001000)
                    << 1) | ((mask & 0b00000100) >> 1) | ((mask & 0b00000010) << 2),
        ;
    }
}

/// `glyph_index` is a bijection on the 256 dot patterns: `dot_pattern`
/// undoes it on either side, so distinct patterns get distinct glyphs and
/// every glyph index is reached from exactly one pattern.
pub proof fn lemma_glyph_index_bijective(mask: u8, other: u8, index: u8)
    ensures
        dot_pattern(glyph_index(mask)) == mask,
        glyph_index(dot_pattern(index)) == index,
        glyph_index(mask) == glyph_index(other) ==> mask == other,
        glyph_index(mask) == index <==> mask == dot_pattern(index),
{
    assert(dot_pattern(glyph_index(mask)) == mask) by (bit_vector);
    assert(dot_pattern(glyph_index(other)) == other) by (bit_vector);
    assert(glyph_index(dot_pattern(index)) == index) by (bit_vector);
}

} // verus!
