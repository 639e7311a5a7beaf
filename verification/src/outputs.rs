//! The text composer: reduced cells in, rows of glyphs out.
use crate::ansi::{convert, paint, painted, term_color};
use crate::cell::{ComputedCell, ComputedCellGrid};
use crate::charsets::{cell_bitmask_to_char_index, glyph_index, CharsetWarnings, BRAILLE};
use vstd::prelude::*;
use vstd::string::*;

verus! {

/// The glyph that is written where a table has none.
pub const PLACEHOLDER: char = '?';

/// The table that is used when none is named, or the named one.
pub open spec fn table_of(charset: Option<&str>) -> Seq<char> {
    match charset {
        Some(text) => text@,
        None => BRAILLE@,
    }
}

/// True when `table` has no glyph for the dot pattern `bitmask`.
pub open spec fn is_missing(table: Seq<char>, bitmask: u8) -> bool {
    glyph_index(bitmask) >= table.len()
}

/// The glyph that shows the dot pattern `bitmask`, or the placeholder.
pub open spec fn glyph_for(table: Seq<char>, bitmask: u8) -> char {
    if is_missing(table, bitmask) {
        PLACEHOLDER
    } else {
        table[glyph_index(bitmask) as int]
    }
}

/// The first glyph of a table, which shows the empty pattern, or the
/// placeholder when the table is empty.
pub open spec fn blank_of(table: Seq<char>) -> char {
    if table.len() > 0 {
        table[0]
    } else {
        PLACEHOLDER
    }
}

/// The text for one cell.
///
/// Without colours it is the glyph of the cell. With colours, a colour
/// counts as transparent when its alpha is below `threshold`: with both
/// transparent the text is the blank glyph without any styling, with only
/// the background transparent the glyph is painted in the foreground
/// colour, and otherwise in the foreground colour on the background colour.
pub open spec fn cell_text(cell: ComputedCell, table: Seq<char>, colored: bool, threshold: i32)
    -> Seq<char> {
    let glyph = glyph_for(table, cell.bitmask);
    if !colored {
        seq![glyph]
    } else if cell.back.a < threshold {
        if cell.fore.a < threshold {
            seq![blank_of(table)]
        } else {
            painted(term_color(cell.fore, true), None, glyph)
        }
    } else {
        painted(term_color(cell.fore, true), Some(term_color(cell.back, true)), glyph)
    }
}

/// The line break that follows cell number `n` (counted from one) in rows of
/// `width` cells, or nothing.
pub open spec fn row_end(width: nat, n: int) -> Seq<char> {
    if width > 0 && n % (width as int) == 0 {
        seq!['\n']
    } else {
        Seq::<char>::empty()
    }
}

/// The text for the first `n` cells: the text of each in turn, with a line
/// break after every `width` cells.
pub open spec fn composed(
    cells: Seq<ComputedCell>,
    width: nat,
    table: Seq<char>,
    colored: bool,
    threshold: i32,
    n: int,
) -> Seq<char>
    decreases n,
{
    if n <= 0 {
        Seq::<char>::empty()
    } else {
        composed(cells, width, table, colored, threshold, n - 1) + cell_text(
            cells[n - 1],
            table,
            colored,
            threshold,
        ) + row_end(width, n)
    }
}

/// True when the table lacks the glyph of one of the first `n` cells.
pub open spec fn any_missing(cells: Seq<ComputedCell>, table: Seq<char>, n: int) -> bool {
    exists|i: int| 0 <= i < n && is_missing(table, #[trigger] cells[i].bitmask)
}

/// The warning that goes with a text.
pub open spec fn warning_of(cells: Seq<ComputedCell>, table: Seq<char>) -> CharsetWarnings {
    if any_missing(cells, table, cells.len() as int) {
        CharsetWarnings::NotEnoughCharacters
    } else {
        CharsetWarnings::NoWarning
    }
}

/// In colour, a cell whose foreground and background are both more
/// transparent than the threshold is written as the first glyph of the
/// table, without any styling, whatever its dot pattern is.
pub proof fn lemma_transparent_cell_is_blank(
    cell: ComputedCell,
    table: Seq<char>,
    threshold: i32,
)
    requires
        cell.fore.a < threshold,
        cell.back.a < threshold,
        table.len() > 0,
    ensures
        cell_text(cell, table, true, threshold) == seq![table[0]],
{
}

proof fn lemma_div_step(n: int, w: int)
    requires
        n >= 1,
        w > 0,
    ensures
        n % w == 0 ==> n / w == (n - 1) / w + 1,
        n % w != 0 ==> n / w == (n - 1) / w,
{
    vstd::arithmetic::div_mod::lemma_fundamental_div_mod(n, w);
    if n % w == 0 {
        assert(n - 1 == (n / w - 1) * w + (w - 1)) by (nonlinear_arith)
            requires
                n == w * (n / w) + 0,
        ;
        vstd::arithmetic::div_mod::lemma_fundamental_div_mod_converse(
            n - 1,
            w,
            n / w - 1,
            w - 1,
        );
    } else {
        assert(n - 1 == (n / w) * w + (n % w - 1)) by (nonlinear_arith)
            requires
                n == w * (n / w) + n % w,
        ;
        vstd::arithmetic::div_mod::lemma_fundamental_div_mod_converse(
            n - 1,
            w,
            n / w,
            n % w - 1,
        );
    }
}

proof fn lemma_plain_length(
    cells: Seq<ComputedCell>,
    width: nat,
    table: Seq<char>,
    threshold: i32,
    n: int,
)
    requires
        width > 0,
        0 <= n,
    ensures
        composed(cells, width, table, false, threshold, n).len() == n + n / (width as int),
    decreases n,
{
    if n > 0 {
        lemma_plain_length(cells, width, table, threshold, n - 1);
        lemma_div_step(n, width as int);
    }
}

proof fn lemma_plain_at(
    cells: Seq<ComputedCell>,
    width: nat,
    table: Seq<char>,
    threshold: i32,
    n: int,
    i: int,
)
    requires
        width > 0,
        0 <= i < n,
    ensures
        i + i / (width as int) < composed(cells, width, table, false, threshold, n).len(),
        composed(cells, width, table, false, threshold, n)[i + i / (width as int)] == glyph_for(
            table,
            cells[i].bitmask,
        ),
        (i + 1) % (width as int) == 0 ==> i + i / (width as int) + 1 < composed(
            cells,
            width,
            table,
            false,
            threshold,
            n,
        ).len() && composed(cells, width, table, false, threshold, n)[i + i / (width as int) + 1]
            == '\n',
    decreases n,
{
    lemma_plain_length(cells, width, table, threshold, n - 1);
    if i < n - 1 {
        lemma_plain_at(cells, width, table, threshold, n - 1, i);
    }
}

/// Without colours the text is a grid of glyphs: every cell gives one
/// character, and every row of `width` cells is followed by one line break.
/// So the text has as many characters, apart from the line breaks, as the
/// grid has cells.
pub proof fn lemma_plain_rows(
    cells: Seq<ComputedCell>,
    width: nat,
    height: nat,
    table: Seq<char>,
    threshold: i32,
    x: int,
    y: int,
)
    requires
        cells.len() == width * height,
        0 <= x < width,
        0 <= y < height,
    ensures
        composed(cells, width, table, false, threshold, cells.len() as int).len() == width * height
            + height,
        composed(cells, width, table, false, threshold, cells.len() as int)[y * (width + 1) + x]
            == glyph_for(table, cells[y * width + x].bitmask),
        composed(cells, width, table, false, threshold, cells.len() as int)[y * (width + 1) + width]
            == '\n',
{
    let w = width as int;
    let h = height as int;
    let n = cells.len() as int;
    assert(0 <= y * w && y * w + w <= w * h && y * (w + 1) == y * w + y && (y + 1) * w == y * w + w
        && h * w == w * h) by (nonlinear_arith)
        requires
            0 <= y < h,
            w > 0,
    ;
    lemma_plain_length(cells, width, table, threshold, n);
    vstd::arithmetic::div_mod::lemma_fundamental_div_mod_converse(n, w, h, 0);
    let i = y * w + x;
    vstd::arithmetic::div_mod::lemma_fundamental_div_mod_converse(i, w, y, x);
    lemma_plain_at(cells, width, table, threshold, n, i);
    let last = y * w + w - 1;
    vstd::arithmetic::div_mod::lemma_fundamental_div_mod_converse(last, w, y, w - 1);
    vstd::arithmetic::div_mod::lemma_fundamental_div_mod_converse(last + 1, w, y + 1, 0);
    lemma_plain_at(cells, width, table, threshold, n, last);
}

/// Calls `String::push`, which appends one character.
#[verifier::external_body]
fn push_char(text: &mut String, c: char)
    ensures
        final(text)@ == old(text)@.push(c),
{
    text.push(c)
}

/// The characters of a string.
pub fn chars_of(text: &str) -> (chars: Vec<char>)
    ensures
        chars@ == text@,
{
    let n = text.unicode_len();
    let mut chars: Vec<char> = Vec::new();
    let mut i: usize = 0;
    while i < n
        invariant
            i <= n,
            n == text@.len(),
            chars@ == text@.take(i as int),
        decreases n - i,
    {
        chars.push(text.get_char(i));
        assert(text@.take(i as int).push(text@[i as int]) =~= text@.take(i + 1));
        i += 1;
    }
    assert(text@.take(n as int) =~= text@);
    chars
}

/// Writes out rows of `width` cells: for each cell its glyph from `table`,
/// plain or in the colours of the cell, and a line break after each row.
/// The warning tells whether the table lacked a glyph.
pub fn compose(
    cells: &Vec<ComputedCell>,
    width: usize,
    table: &Vec<char>,
    colored: bool,
    transparency_t: i32,
) -> (out: (String, CharsetWarnings))
    ensures
        out.0@ == composed(
            cells@,
            width as nat,
            table@,
            colored,
            transparency_t,
            cells@.len() as int,
        ),
        out.1 == warning_of(cells@, table@),
{
    let mut s = String::new();
    let mut missing_char: bool = false;
    let n = cells.len();
    let mut i: usize = 0;
    while i < n
        invariant
            i <= n,
            n == cells@.len(),
            s@ == composed(cells@, width as nat, table@, colored, transparency_t, i as int),
            missing_char == any_missing(cells@, table@, i as int),
        decreases n - i,
    {
        let cell = &cells[i];
        let index = cell_bitmask_to_char_index(cell.bitmask);
        let char_ = if index as usize >= table.len() {
            missing_char = true;
            PLACEHOLDER
        } else {
            table[index as usize]
        };
        if colored {
            if cell.back.a < transparency_t {
                if cell.fore.a < transparency_t {
                    let blank = if table.len() > 0 {
                        table[0]
                    } else {
                        PLACEHOLDER
                    };
                    push_char(&mut s, blank);
                } else {
                    let fore = convert(cell.fore, true);
                    s.append(paint(fore, None, char_).as_str());
                }
            } else {
                let fore = convert(cell.fore, true);
                let back = convert(cell.back, true);
                s.append(paint(fore, Some(back), char_).as_str());
            }
        } else {
            push_char(&mut s, char_);
        }
        if width > 0 && (i + 1) % width == 0 {
            push_char(&mut s, '\n');
        }
        proof {
            let before = composed(cells@, width as nat, table@, colored, transparency_t, i as int);
            let text = cell_text(cells@[i as int], table@, colored, transparency_t);
            assert(before.push(text[0]) =~= before + seq![text[0]]);
            assert(s@ =~= before + text + row_end(width as nat, i + 1));
            assert(any_missing(cells@, table@, i + 1) == (any_missing(cells@, table@, i as int)
                || is_missing(table@, cells@[i as int].bitmask)));
        }
        i += 1;
    }
    (
        s,
        if missing_char {
            CharsetWarnings::NotEnoughCharacters
        } else {
            CharsetWarnings::NoWarning
        },
    )
}

/// Turns grids of reduced cells into text.
pub struct AsciiImageRenderer;

impl AsciiImageRenderer {
    /// Renders a grid as text, row by row, with the glyphs of `charset` or,
    /// without one, the Braille patterns.
    pub fn render(
        grid: &ComputedCellGrid,
        colored: bool,
        charset: Option<&str>,
        transparency_t: i32,
    ) -> (out: (String, CharsetWarnings))
        ensures
            out.0@ == composed(
                grid@.cells,
                grid@.width,
                table_of(charset),
                colored,
                transparency_t,
                grid@.cells.len() as int,
            ),
            out.1 == warning_of(grid@.cells, table_of(charset)),
    {
        grid.to_string(colored, charset, transparency_t)
    }
}

} // verus!
