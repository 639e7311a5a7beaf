//! Cells of pixels: partitioning an image, choosing two colours for each
//! cell, and packing the choice per pixel into a dot pattern.
use crate::charsets::{bit_is_set, CharsetWarnings, BRAILLE};
use crate::color::{lemma_lerp_channel_between, lerp_channel, quotient, Color};
use crate::outputs::{chars_of, compose, composed, table_of, warning_of};
use crate::raster::Raster;
use crate::NearestOption;
use vstd::prelude::*;

verus! {

/// The width of a cell in pixels.
pub const CELL_W: usize = 2;

/// The height of a cell in pixels.
pub const CELL_H: usize = 4;

/// The number of pixels in a cell. A dot pattern has one bit for each.
pub const CELL_LEN: usize = CELL_W * CELL_H;

/// The pixels of one cell, row by row from the top left.
pub type CellPixels = [Color; CELL_LEN];

/// The weight, three quarters, by which a representative colour is drawn
/// from the mean of a cell toward an extreme.
pub const BLEND: i32 = 49152;

/// The representative colour that `cell_flatten_ab` gives a pixel: `b` when
/// the pixel is strictly nearer to `b`, else `a`.
pub open spec fn flattened_pixel(pixel: Color, a: Color, b: Color) -> Color {
    if Color::nearer_to_second(pixel, a, b) {
        b
    } else {
        a
    }
}

/// A cell with every pixel replaced by its representative colour.
pub open spec fn flattened_cell(cell: Seq<Color>, a: Color, b: Color) -> Seq<Color> {
    Seq::new(cell.len(), |p: int| flattened_pixel(cell[p], a, b))
}

/// The value of bit `p` in a dot pattern.
pub open spec fn bit_weight(p: int) -> int {
    if p == 0 {
        1
    } else if p == 1 {
        2
    } else if p == 2 {
        4
    } else if p == 3 {
        8
    } else if p == 4 {
        16
    } else if p == 5 {
        32
    } else if p == 6 {
        64
    } else {
        128
    }
}

/// The dot pattern of the first `n` pixels of a cell against the pair
/// `(a, b)`: the sum of the weights of the pixels that are not strictly
/// nearer to `b`.
pub open spec fn flatten_mask(cell: Seq<Color>, a: Color, b: Color, n: int) -> int
    decreases n,
{
    if n <= 0 {
        0
    } else {
        flatten_mask(cell, a, b, n - 1) + if Color::nearer_to_second(cell[n - 1], a, b) {
            0
        } else {
            bit_weight(n - 1)
        }
    }
}

/// How many of the first `n` pixels of a cell are not strictly nearer to
/// `b`.
pub open spec fn count_first(cell: Seq<Color>, a: Color, b: Color, n: int) -> int
    decreases n,
{
    if n <= 0 {
        0
    } else {
        count_first(cell, a, b, n - 1) + if Color::nearer_to_second(cell[n - 1], a, b) {
            0int
        } else {
            1int
        }
    }
}

/// How many of the eight bits of `mask` are set.
pub open spec fn set_bits(mask: u8) -> int {
    (if bit_is_set(mask, 0) { 1int } else { 0 }) + (if bit_is_set(mask, 1) { 1int } else { 0 }) + (
    if bit_is_set(mask, 2) { 1int } else { 0 }) + (if bit_is_set(mask, 3) { 1int } else { 0 }) + (
    if bit_is_set(mask, 4) { 1int } else { 0 }) + (if bit_is_set(mask, 5) { 1int } else { 0 }) + (
    if bit_is_set(mask, 6) { 1int } else { 0 }) + (if bit_is_set(mask, 7) { 1int } else { 0 })
}

proof fn lemma_flatten_mask_bound(cell: Seq<Color>, a: Color, b: Color, n: int)
    requires
        0 <= n <= 8,
    ensures
        0 <= flatten_mask(cell, a, b, n) < bit_weight(n) || (n == 8 && 0 <= flatten_mask(
            cell,
            a,
            b,
            n,
        ) < 256),
    decreases n,
{
    if n > 0 {
        lemma_flatten_mask_bound(cell, a, b, n - 1);
    }
}

/// Setting bit `p` in a pattern that has no bit at or above `p` adds the
/// weight of `p`, leaves the lower bits as they were and sets no higher bit.
proof fn lemma_set_bit(mask: u8, p: u8)
    requires
        p < 8,
        mask < bit_weight(p as int),
    ensures
        (mask | (1u8 << p)) == mask + bit_weight(p as int),
        bit_is_set(mask | (1u8 << p), p),
        forall|q: u8|
            q < 8 && q != p ==> #[trigger] bit_is_set(mask | (1u8 << p), q) == bit_is_set(mask, q),
        !bit_is_set(mask, p),
{
    let w: u8 = bit_weight(p as int) as u8;
    assert(w == 1u8 << p) by (bit_vector)
        requires
            p < 8,
            w == if p == 0 {
                1u8
            } else if p == 1 {
                2u8
            } else if p == 2 {
                4u8
            } else if p == 3 {
                8u8
            } else if p == 4 {
                16u8
            } else if p == 5 {
                32u8
            } else if p == 6 {
                64u8
            } else {
                128u8
            },
    ;
    assert((mask | (1u8 << p)) == mask + (1u8 << p) && ((mask | (1u8 << p)) >> p) & 1 == 1 && (mask
        >> p) & 1 == 0) by (bit_vector)
        requires
            p < 8,
            mask < (1u8 << p),
    ;
    assert forall|q: u8| q < 8 && q != p implies bit_is_set(mask | (1u8 << p), q) == bit_is_set(
        mask,
        q,
    ) by {
        assert((((mask | (1u8 << p)) >> q) & 1 == 1) == ((mask >> q) & 1 == 1)) by (bit_vector)
            requires
                p < 8,
                q < 8,
                q != p,
        ;
    }
}

/// Bit `p` of the dot pattern of a cell is set exactly when pixel `p` is not
/// strictly nearer to `b`; a pattern of `n` pixels has no bit from `n` up.
pub proof fn lemma_mask_bits(cell: Seq<Color>, a: Color, b: Color, n: int)
    requires
        0 <= n <= 8,
    ensures
        0 <= flatten_mask(cell, a, b, n) < 256,
        forall|p: u8|
            p < n ==> #[trigger] bit_is_set(flatten_mask(cell, a, b, n) as u8, p)
                == !Color::nearer_to_second(cell[p as int], a, b),
        forall|p: u8| n <= p < 8 ==> !#[trigger] bit_is_set(flatten_mask(cell, a, b, n) as u8, p),
    decreases n,
{
    lemma_flatten_mask_bound(cell, a, b, n);
    if n == 0 {
        assert(forall|p: u8| p < 8 ==> !#[trigger] bit_is_set(0u8, p)) by {
            assert forall|p: u8| p < 8 implies !#[trigger] bit_is_set(0u8, p) by {
                assert((0u8 >> p) & 1 == 0) by (bit_vector);
            }
        }
    } else {
        lemma_mask_bits(cell, a, b, n - 1);
        lemma_flatten_mask_bound(cell, a, b, n - 1);
        if !Color::nearer_to_second(cell[n - 1], a, b) {
            lemma_set_bit(flatten_mask(cell, a, b, n - 1) as u8, (n - 1) as u8);
        }
    }
}

/// A dot pattern has as many bits set as the cell has pixels that went to
/// the first colour.
pub proof fn lemma_mask_counts_pixels(cell: Seq<Color>, a: Color, b: Color)
    ensures
        set_bits(flatten_mask(cell, a, b, 8) as u8) == count_first(cell, a, b, 8),
{
    lemma_mask_bits(cell, a, b, 8);
    reveal_with_fuel(count_first, 9);
    let mask = flatten_mask(cell, a, b, 8) as u8;
    assert(bit_is_set(mask, 0) == !Color::nearer_to_second(cell[0], a, b));
    assert(bit_is_set(mask, 1) == !Color::nearer_to_second(cell[1], a, b));
    assert(bit_is_set(mask, 2) == !Color::nearer_to_second(cell[2], a, b));
    assert(bit_is_set(mask, 3) == !Color::nearer_to_second(cell[3], a, b));
    assert(bit_is_set(mask, 4) == !Color::nearer_to_second(cell[4], a, b));
    assert(bit_is_set(mask, 5) == !Color::nearer_to_second(cell[5], a, b));
    assert(bit_is_set(mask, 6) == !Color::nearer_to_second(cell[6], a, b));
    assert(bit_is_set(mask, 7) == !Color::nearer_to_second(cell[7], a, b));
}

/// Classifies every pixel of a cell as nearer to `a` or to `b`, a tie going
/// to `a`. Returns the cell with each pixel replaced by the colour it went
/// to, and the dot pattern of the cell: bit `p` is set exactly when pixel `p`
/// went to `a`, so as many bits are set as pixels went to `a`.
pub fn cell_flatten_ab(val: &CellPixels, a: &Color, b: &Color) -> (out: (CellPixels, u8))
    ensures
        out.0@ == flattened_cell(val@, *a, *b),
        out.1 == flatten_mask(val@, *a, *b, 8),
        set_bits(out.1) == count_first(val@, *a, *b, 8),
        forall|p: u8|
            p < 8 ==> #[trigger] bit_is_set(out.1, p) == !Color::nearer_to_second(
                val@[p as int],
                *a,
                *b,
            ),
{
    let mut copy = *val;
    let mut mask: u8 = 0;
    let mut p_index: usize = 0;
    while p_index < CELL_LEN
        invariant
            p_index <= 8,
            mask == flatten_mask(val@, *a, *b, p_index as int),
            forall|p: int| 0 <= p < p_index ==> copy@[p] == flattened_pixel(val@[p], *a, *b),
            forall|p: int| p_index <= p < 8 ==> copy@[p] == val@[p],
        decreases 8 - p_index,
    {
        let current = copy[p_index];
        proof {
            lemma_flatten_mask_bound(val@, *a, *b, p_index as int);
        }
        match Color::compare_nearest(&current, a, b) {
            NearestOption::A => {
                proof {
                    lemma_set_bit(mask, p_index as u8);
                }
                mask |= 1u8 << (p_index as u8);
                copy[p_index] = *a;
            },
            NearestOption::B => {
                copy[p_index] = *b;
            },
        }
        p_index += 1;
    }
    proof {
        lemma_mask_bits(val@, *a, *b, 8);
        lemma_mask_counts_pixels(val@, *a, *b);
        assert(flatten_mask(val@, *a, *b, 8) as u8 == mask);
        assert(copy@ =~= flattened_cell(val@, *a, *b));
    }
    (copy, mask)
}

/// The sum of the weights of the first `n` bits.
spec fn all_bits(n: int) -> int
    decreases n,
{
    if n <= 0 {
        0
    } else {
        all_bits(n - 1) + bit_weight(n - 1)
    }
}

proof fn lemma_flip_sum(cell: Seq<Color>, a: Color, b: Color, n: int)
    requires
        0 <= n <= 8,
        forall|p: int| 0 <= p < 8 ==> cell[p].spec_distance2(a) != cell[p].spec_distance2(b),
    ensures
        flatten_mask(cell, a, b, n) + flatten_mask(cell, b, a, n) == all_bits(n),
    decreases n,
{
    if n > 0 {
        lemma_flip_sum(cell, a, b, n - 1);
    }
}

/// Where no pixel is equally far from both colours, exchanging the colours
/// inverts every bit of the dot pattern.
pub proof fn lemma_flip_inverts_mask(cell: Seq<Color>, a: Color, b: Color)
    requires
        forall|p: int| 0 <= p < 8 ==> cell[p].spec_distance2(a) != cell[p].spec_distance2(b),
    ensures
        flatten_mask(cell, b, a, 8) == 255 - flatten_mask(cell, a, b, 8),
        flatten_mask(cell, b, a, 8) as u8 == !(flatten_mask(cell, a, b, 8) as u8),
        forall|p: u8|
            p < 8 ==> #[trigger] bit_is_set(flatten_mask(cell, b, a, 8) as u8, p) == !bit_is_set(
                flatten_mask(cell, a, b, 8) as u8,
                p,
            ),
{
    lemma_flip_sum(cell, a, b, 8);
    reveal_with_fuel(all_bits, 9);
    lemma_mask_bits(cell, a, b, 8);
    lemma_mask_bits(cell, b, a, 8);
    let mask = flatten_mask(cell, a, b, 8) as u8;
    assert((255 - mask) as u8 == !mask) by (bit_vector);
}

/// Against a pair of equal colours every pixel goes to the first: the dot
/// pattern is full and every pixel becomes that colour.
pub proof fn lemma_flatten_equal_pair(cell: Seq<Color>, a: Color)
    ensures
        flatten_mask(cell, a, a, 8) == 255,
        forall|p: int| 0 <= p < cell.len() ==> flattened_cell(cell, a, a)[p] == a,
{
    reveal_with_fuel(flatten_mask, 9);
}

/// The channel-wise sums of the first `n` colours of a cell.
pub open spec fn channel_totals(cell: Seq<Color>, n: int) -> (int, int, int, int)
    decreases n,
{
    if n <= 0 {
        (0, 0, 0, 0)
    } else {
        let rest = channel_totals(cell, n - 1);
        let c = cell[n - 1];
        (rest.0 + c.r, rest.1 + c.g, rest.2 + c.b, rest.3 + c.a)
    }
}

/// The arithmetic mean of the eight colours of a cell, each channel rounded
/// toward zero.
pub open spec fn mean_color(cell: Seq<Color>) -> Color {
    let totals = channel_totals(cell, 8);
    Color {
        r: quotient(totals.0, 8) as i32,
        g: quotient(totals.1, 8) as i32,
        b: quotient(totals.2, 8) as i32,
        a: quotient(totals.3, 8) as i32,
    }
}

/// The state of the scan for the two extremes of a cell.
pub struct Extremes {
    /// The colour kept as farthest from transparent black: the bright
    /// extreme.
    pub bright: Color,
    /// The colour kept as farthest from opaque white: the dark extreme.
    pub dark: Color,
    /// The largest squared distance from transparent black seen so far.
    pub from_transparent: int,
    /// The largest squared distance from opaque white among the colours that
    /// were compared against it.
    pub from_white: int,
}

/// The extremes after the first `n` colours of a cell have been scanned.
///
/// The scan starts from opaque white as the bright extreme and opaque black
/// as the dark one, both at distance zero. A colour strictly farther from
/// transparent black than any before it becomes the bright extreme. Only a
/// colour that did not is compared against the dark extreme, and replaces it
/// when it is strictly farther from opaque white than the distance kept.
pub open spec fn scan_extremes(cell: Seq<Color>, n: int) -> Extremes
    decreases n,
{
    if n <= 0 {
        Extremes {
            bright: Color::white(),
            dark: Color::black(),
            from_transparent: 0,
            from_white: 0,
        }
    } else {
        let before = scan_extremes(cell, n - 1);
        let c = cell[n - 1];
        if c.spec_distance2(Color::transparent()) > before.from_transparent {
            Extremes {
                bright: c,
                from_transparent: c.spec_distance2(Color::transparent()),
                ..before
            }
        } else if c.spec_distance2(Color::white()) > before.from_white {
            Extremes { dark: c, from_white: c.spec_distance2(Color::white()), ..before }
        } else {
            before
        }
    }
}

/// The colour three quarters of the way from `mean` to `extreme`.
pub open spec fn blended(mean: Color, extreme: Color) -> Color {
    Color {
        r: lerp_channel(mean.r as int, extreme.r as int, BLEND as int) as i32,
        g: lerp_channel(mean.g as int, extreme.g as int, BLEND as int) as i32,
        b: lerp_channel(mean.b as int, extreme.b as int, BLEND as int) as i32,
        a: lerp_channel(mean.a as int, extreme.a as int, BLEND as int) as i32,
    }
}

/// The two representative colours of a cell: its mean blended toward its
/// bright extreme, and its mean blended toward its dark extreme.
pub open spec fn contrast_pair(cell: Seq<Color>) -> (Color, Color) {
    let extremes = scan_extremes(cell, 8);
    (blended(mean_color(cell), extremes.bright), blended(mean_color(cell), extremes.dark))
}

proof fn lemma_channel_totals_bound(cell: Seq<Color>, n: int)
    requires
        0 <= n,
    ensures
        n * i32::MIN <= channel_totals(cell, n).0 <= n * i32::MAX,
        n * i32::MIN <= channel_totals(cell, n).1 <= n * i32::MAX,
        n * i32::MIN <= channel_totals(cell, n).2 <= n * i32::MAX,
        n * i32::MIN <= channel_totals(cell, n).3 <= n * i32::MAX,
    decreases n,
{
    if n > 0 {
        lemma_channel_totals_bound(cell, n - 1);
    }
}

proof fn lemma_blend_fits(mean: Color, extreme: Color)
    ensures
        mean.spec_lerp(extreme, BLEND as int) == (
            blended(mean, extreme).r as int,
            blended(mean, extreme).g as int,
            blended(mean, extreme).b as int,
            blended(mean, extreme).a as int,
        ),
{
    lemma_lerp_channel_between(mean.r as int, extreme.r as int, BLEND as int);
    lemma_lerp_channel_between(mean.g as int, extreme.g as int, BLEND as int);
    lemma_lerp_channel_between(mean.b as int, extreme.b as int, BLEND as int);
    lemma_lerp_channel_between(mean.a as int, extreme.a as int, BLEND as int);
}

/// Chooses the two representative colours of a cell, brighter first.
///
/// Both are blends, by three quarters, from the mean of the cell toward an
/// extreme found in one scan: the colour farthest from transparent black,
/// and the colour farthest from opaque white.
pub fn compute_minmax_contrast(values: &CellPixels) -> (out: (Color, Color))
    ensures
        out == contrast_pair(values@),
{
    let mut sum_r: i64 = 0;
    let mut sum_g: i64 = 0;
    let mut sum_b: i64 = 0;
    let mut sum_a: i64 = 0;
    let mut i: usize = 0;
    while i < CELL_LEN
        invariant
            i <= 8,
            (sum_r as int, sum_g as int, sum_b as int, sum_a as int) == channel_totals(
                values@,
                i as int,
            ),
        decreases 8 - i,
    {
        proof {
            lemma_channel_totals_bound(values@, i as int);
        }
        let ele = values[i];
        sum_r += ele.r as i64;
        sum_g += ele.g as i64;
        sum_b += ele.b as i64;
        sum_a += ele.a as i64;
        i += 1;
    }
    proof {
        lemma_channel_totals_bound(values@, 8);
    }
    let avg = Color {
        r: crate::color::divide_toward_zero(sum_r as i128, 8) as i32,
        g: crate::color::divide_toward_zero(sum_g as i128, 8) as i32,
        b: crate::color::divide_toward_zero(sum_b as i128, 8) as i32,
        a: crate::color::divide_toward_zero(sum_a as i128, 8) as i32,
    };
    assert(avg == mean_color(values@));

    let mut max_from_white: u128 = 0;
    let mut max_from_transparent: u128 = 0;
    let mut bright = Color::white();
    let mut dark = Color::black();
    let transparent = Color::transparent();
    let white = Color::white();
    let mut i: usize = 0;
    while i < CELL_LEN
        invariant
            i <= 8,
            transparent == Color::transparent(),
            white == Color::white(),
            scan_extremes(values@, i as int) == (Extremes {
                bright,
                dark,
                from_transparent: max_from_transparent as int,
                from_white: max_from_white as int,
            }),
        decreases 8 - i,
    {
        let ele = values[i];
        let from_transparent = ele.distance2(&transparent);
        let from_white = ele.distance2(&white);
        if from_transparent > max_from_transparent {
            max_from_transparent = from_transparent;
            bright = ele;
        } else if from_white > max_from_white {
            max_from_white = from_white;
            dark = ele;
        }
        i += 1;
    }
    proof {
        lemma_blend_fits(avg, bright);
        lemma_blend_fits(avg, dark);
    }
    let a = avg.lerp(bright, BLEND);
    let b = avg.lerp(dark, BLEND);
    (a, b)
}


proof fn lemma_square_positive(x: int)
    ensures
        x * x >= 0,
        x != 0 ==> x * x > 0,
{
    assert(x * x >= 0 && (x != 0 ==> x * x > 0)) by (nonlinear_arith);
}

proof fn lemma_distance2_positive(x: Color, y: Color)
    ensures
        x.spec_distance2(y) >= 0,
        x != y ==> x.spec_distance2(y) > 0,
{
    lemma_square_positive(x.r - y.r);
    lemma_square_positive(x.g - y.g);
    lemma_square_positive(x.b - y.b);
    lemma_square_positive(x.a - y.a);
}

proof fn lemma_uniform_totals(cell: Seq<Color>, c: Color, n: int)
    requires
        0 <= n <= 8,
        cell.len() == 8,
        forall|p: int| 0 <= p < 8 ==> cell[p] == c,
    ensures
        channel_totals(cell, n).0 == n * c.r,
        channel_totals(cell, n).1 == n * c.g,
        channel_totals(cell, n).2 == n * c.b,
        channel_totals(cell, n).3 == n * c.a,
    decreases n,
{
    if n > 0 {
        lemma_uniform_totals(cell, c, n - 1);
        assert(cell[n - 1] == c);
        assert((n - 1) * c.r + c.r == n * c.r) by (nonlinear_arith);
        assert((n - 1) * c.g + c.g == n * c.g) by (nonlinear_arith);
        assert((n - 1) * c.b + c.b == n * c.b) by (nonlinear_arith);
        assert((n - 1) * c.a + c.a == n * c.a) by (nonlinear_arith);
    }
}

proof fn lemma_uniform_scan(cell: Seq<Color>, c: Color, n: int)
    requires
        1 <= n <= 8,
        cell.len() == 8,
        forall|p: int| 0 <= p < 8 ==> cell[p] == c,
        c != Color::transparent(),
        c != Color::white(),
    ensures
        scan_extremes(cell, n).bright == c,
        scan_extremes(cell, n).from_transparent == c.spec_distance2(Color::transparent()),
        n >= 2 ==> scan_extremes(cell, n).dark == c,
        n >= 2 ==> scan_extremes(cell, n).from_white == c.spec_distance2(Color::white()),
        n == 1 ==> scan_extremes(cell, n).from_white == 0,
    decreases n,
{
    lemma_distance2_positive(c, Color::transparent());
    lemma_distance2_positive(c, Color::white());
    if n > 1 {
        lemma_uniform_scan(cell, c, n - 1);
    } else {
        reveal_with_fuel(scan_extremes, 2);
    }
}

/// A cell whose eight pixels all have one colour, other than transparent
/// black and opaque white, has that colour as its mean and as both of its
/// representative colours.
pub proof fn lemma_uniform_cell(cell: Seq<Color>, c: Color)
    requires
        cell.len() == 8,
        forall|p: int| 0 <= p < 8 ==> cell[p] == c,
        c != Color::transparent(),
        c != Color::white(),
    ensures
        mean_color(cell) == c,
        contrast_pair(cell) == (c, c),
{
    lemma_uniform_totals(cell, c, 8);
    lemma_uniform_scan(cell, c, 8);
    lemma_lerp_channel_between(c.r as int, c.r as int, BLEND as int);
    lemma_lerp_channel_between(c.g as int, c.g as int, BLEND as int);
    lemma_lerp_channel_between(c.b as int, c.b as int, BLEND as int);
    lemma_lerp_channel_between(c.a as int, c.a as int, BLEND as int);
}

/// The cell in column `cx` of row `cy` of the grid over an image: the two by
/// four pixels whose top left corner is at `(2 * cx, 4 * cy)`, row by row.
pub open spec fn cell_of(img: Raster, cx: int, cy: int) -> Seq<Color> {
    Seq::new(8, |p: int| img.spec_color_at(2 * cx + p % 2, 4 * cy + p / 2))
}

/// What a grid holds: its cells row by row, and its dimensions in cells.
pub struct GridView<C> {
    pub cells: Seq<C>,
    pub width: nat,
    pub height: nat,
}

impl<C> GridView<C> {
    /// True when there is one cell for every column of every row.
    pub open spec fn well_formed(self) -> bool {
        self.cells.len() == self.width * self.height
    }
}

/// The partition of an image into cells: as many columns and rows as whole
/// cells fit, and cell `i` is the one in column `i % width` of row
/// `i / width`. Pixels beyond the last whole cell are in no cell.
pub open spec fn partition_of(img: Raster) -> GridView<Seq<Color>> {
    let width = img.spec_width() / 2;
    let height = img.spec_height() / 4;
    GridView {
        cells: Seq::new(
            (width * height) as nat,
            |i: int| cell_of(img, i % (width as int), i / (width as int)),
        ),
        width: width as nat,
        height: height as nat,
    }
}

/// The cells of an image, row by row.
pub struct CellGrid {
    pub cells: Vec<CellPixels>,
    width: usize,
    height: usize,
}

impl View for CellGrid {
    type V = GridView<Seq<Color>>;

    closed spec fn view(&self) -> GridView<Seq<Color>> {
        GridView {
            cells: Seq::new(self.cells@.len(), |i: int| self.cells@[i]@),
            width: self.width as nat,
            height: self.height as nat,
        }
    }
}

impl CellGrid {
    /// The number of cells in a row.
    pub fn width(&self) -> (w: usize)
        ensures
            w == self@.width,
    {
        self.width
    }

    /// The number of rows.
    pub fn height(&self) -> (h: usize)
        ensures
            h == self@.height,
    {
        self.height
    }

    /// The number of cells.
    pub fn len(&self) -> (n: usize)
        ensures
            n == self@.cells.len(),
    {
        self.cells.len()
    }
}

/// Reads the cell in column `x` of row `y` from an image.
fn read_cell(img: &Raster, x: u32, y: u32) -> (cell: CellPixels)
    requires
        2 * x + 1 < img.spec_width(),
        4 * y + 3 < img.spec_height(),
    ensures
        cell@ == cell_of(*img, x as int, y as int),
{
    let cell_x: u32 = x * 2;
    let cell_y: u32 = y * 4;
    let cell = [
        img.color_at(cell_x, cell_y),
        img.color_at(cell_x + 1, cell_y),
        img.color_at(cell_x, cell_y + 1),
        img.color_at(cell_x + 1, cell_y + 1),
        img.color_at(cell_x, cell_y + 2),
        img.color_at(cell_x + 1, cell_y + 2),
        img.color_at(cell_x, cell_y + 3),
        img.color_at(cell_x + 1, cell_y + 3),
    ];
    assert(cell@ =~= cell_of(*img, x as int, y as int));
    cell
}

impl core::convert::From<&Raster> for CellGrid {
    /// Cuts an image into cells of two by four pixels. Columns and rows that
    /// do not fill a whole cell are left out; an image smaller than one cell
    /// gives a grid without cells.
    fn from(img: &Raster) -> (grid: CellGrid)
        ensures
            grid@ == partition_of(*img),
    {
        let cols: u32 = img.width() / 2;
        let rows: u32 = img.height() / 4;
        let mut cells: Vec<CellPixels> = Vec::new();
        let mut y: u32 = 0;
        while y < rows
            invariant
                y <= rows,
                cols == img.spec_width() / 2,
                rows == img.spec_height() / 4,
                cells@.len() == y * cols,
                forall|i: int|
                    0 <= i < cells@.len() ==> (#[trigger] cells@[i])@ == cell_of(
                        *img,
                        i % (cols as int),
                        i / (cols as int),
                    ),
            decreases rows - y,
        {
            let mut x: u32 = 0;
            while x < cols
                invariant
                    y < rows,
                    x <= cols,
                    cols == img.spec_width() / 2,
                    rows == img.spec_height() / 4,
                    cells@.len() == y * cols + x,
                    forall|i: int|
                        0 <= i < cells@.len() ==> (#[trigger] cells@[i])@ == cell_of(
                            *img,
                            i % (cols as int),
                            i / (cols as int),
                        ),
                decreases cols - x,
            {
                let cell = read_cell(img, x, y);
                proof {
                    vstd::arithmetic::div_mod::lemma_fundamental_div_mod_converse(
                        y * cols + x,
                        cols as int,
                        y as int,
                        x as int,
                    );
                }
                cells.push(cell);
                x += 1;
            }
            assert(y * cols + cols == (y + 1) * cols) by (nonlinear_arith);
            y += 1;
        }
        assert(cells@.len() == cols * rows) by (nonlinear_arith)
            requires
                cells@.len() == y * cols,
                y == rows,
        ;
        let grid = CellGrid { cells, width: cols as usize, height: rows as usize };
        assert(grid@.cells =~= partition_of(*img).cells);
        grid
    }
}

impl vstd::std_specs::convert::FromSpecImpl<&Raster> for CellGrid {
    open spec fn obeys_from_spec() -> bool {
        false
    }

    open spec fn from_spec(img: &Raster) -> CellGrid {
        arbitrary()
    }
}


/// The pixel in column `x` of row `y` of the image that a grid of cells
/// covers.
pub open spec fn grid_pixel(grid: GridView<Seq<Color>>, x: int, y: int) -> Color {
    grid.cells[x / 2 + (y / 4) * grid.width][x % 2 + (y % 4) * 2]
}

proof fn lemma_cell_index_in_range(cell_x: int, cell_y: int, width: int, height: int)
    requires
        0 <= cell_x < width,
        0 <= cell_y < height,
    ensures
        0 <= cell_y * width,
        0 <= cell_x + cell_y * width < width * height,
{
    assert(0 <= cell_y * width && cell_x + cell_y * width < width * height) by (nonlinear_arith)
        requires
            0 <= cell_x < width,
            0 <= cell_y < height,
    ;
}

/// A partition leaves out no pixel that lies in a whole cell: the pixel in
/// column `x` of row `y` of the image is found again in the grid. Where the
/// width is a multiple of two and the height a multiple of four, that is
/// every pixel of the image.
pub proof fn lemma_partition_keeps_pixels(img: Raster, x: int, y: int)
    requires
        0 <= x < 2 * (img.spec_width() / 2),
        0 <= y < 4 * (img.spec_height() / 4),
    ensures
        partition_of(img).well_formed(),
        partition_of(img).cells.len() == (img.spec_width() / 2) * (img.spec_height() / 4),
        grid_pixel(partition_of(img), x, y) == img.spec_color_at(x, y),
{
    let grid = partition_of(img);
    let width = grid.width as int;
    let i = x / 2 + (y / 4) * width;
    lemma_cell_index_in_range(x / 2, y / 4, width, grid.height as int);
    assert((y / 4) * width == width * (y / 4)) by (nonlinear_arith);
    vstd::arithmetic::div_mod::lemma_fundamental_div_mod_converse(i, width, y / 4, x / 2);
    assert(grid.cells[i] == cell_of(img, x / 2, y / 4));
}

impl CellGrid {
    /// Lays the cells out again as an image: the pixels row by row, then the
    /// width and the height in pixels.
    pub fn as_image_bytes(&self) -> (out: (Vec<Color>, usize, usize))
        requires
            has_image(self@),
        ensures
            out.1 == self@.width * 2,
            out.2 == self@.height * 4,
            out.0@.len() == out.1 * out.2,
            forall|k: int|
                0 <= k < out.0@.len() ==> #[trigger] out.0@[k] == grid_pixel(
                    self@,
                    k % (out.1 as int),
                    k / (out.1 as int),
                ),
    {
        let im_w: usize = self.width * CELL_W;
        let im_h: usize = self.height * CELL_H;
        let mut data: Vec<Color> = Vec::new();
        let mut y: usize = 0;
        assert(self.cells.len() == self.width * self.height);
        while y < im_h
            invariant
                y <= im_h,
                im_w == self.width * 2,
                im_h == self.height * 4,
                self.cells.len() == self.width * self.height,
                data@.len() == y * im_w,
                forall|k: int|
                    0 <= k < data@.len() ==> #[trigger] data@[k] == grid_pixel(
                        self@,
                        k % (im_w as int),
                        k / (im_w as int),
                    ),
            decreases im_h - y,
        {
            let mut x: usize = 0;
            while x < im_w
                invariant
                    y < im_h,
                    x <= im_w,
                    im_w == self.width * 2,
                    im_h == self.height * 4,
                    self.cells.len() == self.width * self.height,
                    data@.len() == y * im_w + x,
                    forall|k: int|
                        0 <= k < data@.len() ==> #[trigger] data@[k] == grid_pixel(
                            self@,
                            k % (im_w as int),
                            k / (im_w as int),
                        ),
                decreases im_w - x,
            {
                let cell_y = y / CELL_H;
                let cell_x = x / CELL_W;
                proof {
                    lemma_cell_index_in_range(
                        cell_x as int,
                        cell_y as int,
                        self.width as int,
                        self.height as int,
                    );
                    vstd::arithmetic::div_mod::lemma_fundamental_div_mod_converse(
                        y * im_w + x,
                        im_w as int,
                        y as int,
                        x as int,
                    );
                }
                let cell_index = cell_x + cell_y * self.width;
                let pixel_offset_y = y % CELL_H;
                let pixel_offset_x = x % CELL_W;
                let pixel_offset = pixel_offset_x + pixel_offset_y * CELL_W;
                data.push(self.cells[cell_index][pixel_offset]);
                x += 1;
            }
            assert(y * im_w + im_w == (y + 1) * im_w) by (nonlinear_arith);
            y += 1;
        }
        assert(data@.len() == im_w * im_h) by (nonlinear_arith)
            requires
                data@.len() == y * im_w,
                y == im_h,
        ;
        (data, im_w, im_h)
    }
}

/// True when `as_image_bytes` can lay a grid out: the grid holds one cell for
/// every column of every row, and the width and height in pixels fit in a
/// `usize`.
pub open spec fn has_image(grid: GridView<Seq<Color>>) -> bool {
    &&& grid.well_formed()
    &&& grid.width * 2 <= usize::MAX
    &&& grid.height * 4 <= usize::MAX
}

impl CellGrid {
    /// Lays the cells out as an image where that can be done, and returns
    /// `None` where it cannot.
    pub fn checked_image_bytes(&self) -> (out: Option<(Vec<Color>, usize, usize)>)
        ensures
            out.is_some() == has_image(self@),
            out.is_some() ==> out.unwrap().1 == self@.width * 2,
            out.is_some() ==> out.unwrap().2 == self@.height * 4,
            out.is_some() ==> out.unwrap().0@.len() == out.unwrap().1 * out.unwrap().2,
            out.is_some() ==> forall|k: int|
                0 <= k < out.unwrap().0@.len() ==> #[trigger] out.unwrap().0@[k] == grid_pixel(
                    self@,
                    k % (out.unwrap().1 as int),
                    k / (out.unwrap().1 as int),
                ),
    {
        if self.width > usize::MAX / 2 || self.height > usize::MAX / 4 {
            return None;
        }
        let n = self.cells.len();
        let matches = if self.width == 0 {
            n == 0
        } else {
            n / self.width == self.height && n % self.width == 0
        };
        proof {
            if self.width > 0 {
                vstd::arithmetic::div_mod::lemma_fundamental_div_mod(n as int, self.width as int);
                if self.cells.len() == self.width * self.height {
                    vstd::arithmetic::div_mod::lemma_fundamental_div_mod_converse(
                        n as int,
                        self.width as int,
                        self.height as int,
                        0,
                    );
                }
            } else {
                assert(self.width * self.height == 0);
            }
        }
        if matches {
            Some(self.as_image_bytes())
        } else {
            None
        }
    }
}

/// Replaces every pixel of every cell by the nearer of the two
/// representative colours that `compute_minmax_contrast` chooses for the
/// cell.
pub fn round_cells(cells: &mut Vec<CellPixels>)
    ensures
        final(cells)@.len() == old(cells)@.len(),
        forall|i: int|
            0 <= i < old(cells)@.len() ==> (#[trigger] final(cells)@[i])@ == flattened_cell(
                old(cells)@[i]@,
                contrast_pair(old(cells)@[i]@).0,
                contrast_pair(old(cells)@[i]@).1,
            ),
{
    let n = cells.len();
    let mut i: usize = 0;
    while i < n
        invariant
            i <= n,
            n == old(cells)@.len(),
            cells@.len() == n,
            forall|j: int|
                0 <= j < i ==> (#[trigger] cells@[j])@ == flattened_cell(
                    old(cells)@[j]@,
                    contrast_pair(old(cells)@[j]@).0,
                    contrast_pair(old(cells)@[j]@).1,
                ),
            forall|j: int| i <= j < n ==> cells@[j] == old(cells)@[j],
        decreases n - i,
    {
        let ele = cells[i];
        let (a, b) = compute_minmax_contrast(&ele);
        let (rounded, _) = cell_flatten_ab(&ele, &a, &b);
        cells.set(i, rounded);
        i += 1;
    }
}

/// Replaces every pixel of every cell by the nearer of the colours `a` and
/// `b`.
pub fn round_cells_with_ab(cells: &mut Vec<CellPixels>, a: &Color, b: &Color)
    ensures
        final(cells)@.len() == old(cells)@.len(),
        forall|i: int|
            0 <= i < old(cells)@.len() ==> (#[trigger] final(cells)@[i])@ == flattened_cell(
                old(cells)@[i]@,
                *a,
                *b,
            ),
{
    let n = cells.len();
    let mut i: usize = 0;
    while i < n
        invariant
            i <= n,
            n == old(cells)@.len(),
            cells@.len() == n,
            forall|j: int|
                0 <= j < i ==> (#[trigger] cells@[j])@ == flattened_cell(old(cells)@[j]@, *a, *b),
            forall|j: int| i <= j < n ==> cells@[j] == old(cells)@[j],
        decreases n - i,
    {
        let ele = cells[i];
        let (rounded, _) = cell_flatten_ab(&ele, a, b);
        cells.set(i, rounded);
        i += 1;
    }
}

/// What a cell was reduced to: a foreground and a background colour, and the
/// dot pattern that tells which pixels took the foreground.
#[derive(Clone, Copy, Debug, PartialEq, Eq, Structural)]
pub struct ComputedCell {
    pub fore: Color,
    pub back: Color,
    pub bitmask: u8,
}

/// The pair of colours that is used for every cell, when both are given.
pub open spec fn fixed_pair(fore: Option<Color>, back: Option<Color>) -> Option<(Color, Color)> {
    if fore.is_some() && back.is_some() {
        Some((fore.unwrap(), back.unwrap()))
    } else {
        None
    }
}

/// The reduction of one cell. The colours are the fixed pair or, without
/// one, the contrast pair of the cell; `invert` exchanges them before the
/// pixels are classified.
pub open spec fn computed_cell(cell: Seq<Color>, fixed: Option<(Color, Color)>, invert: bool)
    -> ComputedCell {
    let pair = if fixed.is_some() {
        fixed.unwrap()
    } else {
        contrast_pair(cell)
    };
    let fore = if invert {
        pair.1
    } else {
        pair.0
    };
    let back = if invert {
        pair.0
    } else {
        pair.1
    };
    ComputedCell { fore, back, bitmask: flatten_mask(cell, fore, back, 8) as u8 }
}

/// The reduction of a whole grid, cell by cell.
pub open spec fn computed_grid(
    grid: GridView<Seq<Color>>,
    fixed: Option<(Color, Color)>,
    invert: bool,
) -> GridView<ComputedCell> {
    GridView {
        cells: Seq::new(grid.cells.len(), |i: int| computed_cell(grid.cells[i], fixed, invert)),
        width: grid.width,
        height: grid.height,
    }
}

/// The reduced cells of an image, row by row.
pub struct ComputedCellGrid {
    pub cells: Vec<ComputedCell>,
    width: usize,
    height: usize,
}

impl View for ComputedCellGrid {
    type V = GridView<ComputedCell>;

    closed spec fn view(&self) -> GridView<ComputedCell> {
        GridView { cells: self.cells@, width: self.width as nat, height: self.height as nat }
    }
}

impl CellGrid {
    /// Reduces every cell to its own contrast pair and dot pattern.
    pub fn to_computed(&self, invert: bool) -> (out: ComputedCellGrid)
        ensures
            out@ == computed_grid(self@, None, invert),
    {
        ComputedCellGrid::create(self, None, None, invert)
    }

    /// Reduces every cell to the pair `(a, b)` and its dot pattern against
    /// that pair.
    pub fn to_computed_ab(&self, a: &Color, b: &Color, invert: bool) -> (out: ComputedCellGrid)
        ensures
            out@ == computed_grid(self@, Some((*a, *b)), invert),
    {
        ComputedCellGrid::create(self, Some(a), Some(b), invert)
    }
}

impl ComputedCellGrid {
    fn create(grid: &CellGrid, fore: Option<&Color>, back: Option<&Color>, invert: bool) -> (out:
        Self)
        ensures
            out@ == computed_grid(
                grid@,
                fixed_pair(
                    if fore.is_some() {
                        Some(*fore.unwrap())
                    } else {
                        None
                    },
                    if back.is_some() {
                        Some(*back.unwrap())
                    } else {
                        None
                    },
                ),
                invert,
            ),
    {
        let ghost fixed = fixed_pair(
            if fore.is_some() {
                Some(*fore.unwrap())
            } else {
                None
            },
            if back.is_some() {
                Some(*back.unwrap())
            } else {
                None
            },
        );
        let mut computed_cells: Vec<ComputedCell> = Vec::new();
        let n = grid.cells.len();
        let mut i: usize = 0;
        while i < n
            invariant
                i <= n,
                n == grid.cells@.len(),
                computed_cells@.len() == i,
                fixed == fixed_pair(
                    if fore.is_some() {
                        Some(*fore.unwrap())
                    } else {
                        None
                    },
                    if back.is_some() {
                        Some(*back.unwrap())
                    } else {
                        None
                    },
                ),
                forall|j: int|
                    0 <= j < i ==> #[trigger] computed_cells@[j] == computed_cell(
                        grid.cells@[j]@,
                        fixed,
                        invert,
                    ),
            decreases n - i,
        {
            let x = &grid.cells[i];
            let (fore_, back_) = if fore.is_some() && back.is_some() {
                (*fore.unwrap(), *back.unwrap())
            } else {
                compute_minmax_contrast(x)
            };
            let (final_fore, final_back) = if invert {
                (back_, fore_)
            } else {
                (fore_, back_)
            };
            let (_, bitmask) = cell_flatten_ab(x, &final_fore, &final_back);
            computed_cells.push(ComputedCell { fore: final_fore, back: final_back, bitmask });
            i += 1;
        }
        let out = Self { cells: computed_cells, width: grid.width(), height: grid.height() };
        assert(out@.cells =~= computed_grid(grid@, fixed, invert).cells);
        out
    }

    /// Renders the grid as text, row by row, with the glyphs of `charset`
    /// or, without one, the Braille patterns. With `colored` each glyph is
    /// wrapped in the escape sequences for the colours of its cell, unless
    /// their alpha is below `transparency_t`.
    pub fn to_string(&self, colored: bool, charset: Option<&str>, transparency_t: i32) -> (out: (
        String,
        CharsetWarnings,
    ))
        ensures
            out.0@ == composed(
                self@.cells,
                self@.width,
                table_of(charset),
                colored,
                transparency_t,
                self@.cells.len() as int,
            ),
            out.1 == warning_of(self@.cells, table_of(charset)),
    {
        let characters: Vec<char> = match charset {
            Some(text) => chars_of(text),
            None => chars_of(BRAILLE),
        };
        compose(&self.cells, self.width, &characters, colored, transparency_t)
    }

    /// The number of cells in a row.
    pub fn width(&self) -> (w: usize)
        ensures
            w == self@.width,
    {
        self.width
    }

    /// The number of rows.
    pub fn height(&self) -> (h: usize)
        ensures
            h == self@.height,
    {
        self.height
    }
}

} // verus!
