//! From the options of a run to the size of the image that is rendered, and
//! from a decoded image to its text.
use crate::cell::{computed_grid, partition_of, CellGrid};
use crate::charsets::CharsetWarnings;
use crate::color::Color;
use crate::outputs::{composed, table_of, warning_of};
use crate::raster::Raster;
use vstd::prelude::*;

verus! {

/// The number of glyphs in a row when nothing else is known.
pub const DEFAULT_WIDTH: usize = 100;

/// The number of rows when nothing else is known.
pub const DEFAULT_HEIGHT: usize = 25;

/// The alpha below which a colour counts as transparent unless the caller
/// says otherwise: nine tenths, in fixed point.
pub const DEFAULT_TRANSPARENCY: i32 = 58982;

/// How the cells are coloured.
#[derive(Clone, Copy, Debug, PartialEq, Eq, Structural)]
pub enum RenderMode {
    /// Every cell in its own two colours, shown as terminal colours.
    Color,
    /// Every cell reduced to its own two colours, shown without colours.
    NoColor,
    /// Every cell reduced to white and black, shown without colours.
    PlainText,
}

/// The options of a run, as they are given on the command line.
pub struct CliArgs {
    /// File path or URL of the image.
    pub source: String,
    /// Where the text is saved, if anywhere.
    pub output: Option<String>,
    /// Do not fit the text to the terminal.
    pub no_autosize: bool,
    /// The number of glyphs in a row.
    pub width: Option<usize>,
    /// The number of rows.
    pub height: Option<usize>,
    /// Do not keep the proportions of the image.
    pub no_keep_aspect: bool,
    /// Render without colours.
    pub no_color: bool,
    /// Render in white and black, without colours.
    pub plain_text: bool,
    /// Say what is being done.
    pub debug: bool,
    /// Render the image at its own size.
    pub use_original_image_size: bool,
    /// Do not print the text.
    pub no_print: bool,
    /// The name of the glyph table.
    pub charset: Option<String>,
    /// The name of the resampling.
    pub scaling: Option<String>,
    /// The alpha below which a colour counts as transparent, in fixed point.
    pub transparency_t: Option<i32>,
    /// Exchange foreground and background in every cell.
    pub invert_cell: bool,
}

/// What a run renders: the size in pixels to which the image is resized,
/// the colouring, and where the text goes.
pub struct RenderSettings {
    pub im_height: u32,
    pub im_width: u32,
    pub render_mode: RenderMode,
    pub output: Option<String>,
}

/// The smaller of `value` and the largest `usize`.
pub open spec fn saturated(value: int) -> usize {
    if value > usize::MAX {
        usize::MAX
    } else {
        value as usize
    }
}

/// The size in glyphs, width first, after one side of `width` by `height`
/// has been reduced to the proportions of an image of `image_width` by
/// `image_height` pixels. A glyph covers two by four pixels.
///
/// The height is the side that changes when `use_width` says so or, left
/// open, when that makes the text less high than `height`; otherwise the
/// width changes. The changed side is rounded down.
pub open spec fn kept_aspect(
    width: usize,
    height: usize,
    image_width: u32,
    image_height: u32,
    use_width: Option<bool>,
) -> (usize, usize) {
    let new_width = (4 * height * image_width) / (2 * image_height);
    let new_height = (2 * width * image_height) / (4 * image_width);
    let by_width = match use_width {
        Some(choice) => choice,
        None => new_height < height,
    };
    if by_width {
        (width, saturated(new_height))
    } else {
        (saturated(new_width), height)
    }
}

/// The size in glyphs that is used where the options give none: that of the
/// terminal, columns first, or the defaults.
pub open spec fn detected_or_default(detected: Option<(u16, u16)>) -> (usize, usize) {
    match detected {
        Some((cols, rows)) => (cols as usize, rows as usize),
        None => (DEFAULT_WIDTH, DEFAULT_HEIGHT),
    }
}

/// True when the size in glyphs is reduced to the proportions of the image:
/// unless the image keeps its own size, the proportions are given up, or
/// both sides are given.
pub open spec fn keeps_aspect(args: &CliArgs) -> bool {
    !args.use_original_image_size && !args.no_keep_aspect && !(args.width.is_some()
        && args.height.is_some())
}

/// The size in glyphs of the text, width first, unless the image keeps its
/// own size.
pub open spec fn size_in_glyphs(
    args: &CliArgs,
    image_width: u32,
    image_height: u32,
    detected: Option<(u16, u16)>,
) -> (usize, usize) {
    let fallback = if args.no_autosize {
        (DEFAULT_WIDTH, DEFAULT_HEIGHT)
    } else {
        detected_or_default(detected)
    };
    let wanted = (
        if args.width.is_some() {
            args.width.unwrap()
        } else {
            fallback.0
        },
        if args.height.is_some() {
            args.height.unwrap()
        } else {
            fallback.1
        },
    );
    if keeps_aspect(args) {
        kept_aspect(wanted.0, wanted.1, image_width, image_height, Some(args.width.is_some()))
    } else {
        wanted
    }
}

/// The size in pixels, width first, to which the image is resized: its own
/// size, or two by four pixels for every glyph. A size beyond 32 bits wraps
/// around.
pub open spec fn size_in_pixels(
    args: &CliArgs,
    image_width: u32,
    image_height: u32,
    detected: Option<(u16, u16)>,
) -> (u32, u32) {
    if args.use_original_image_size {
        (image_width, image_height)
    } else {
        let glyphs = size_in_glyphs(args, image_width, image_height, detected);
        (
            ((glyphs.0 * 2) % 0x1_0000_0000) as u32,
            ((glyphs.1 * 4) % 0x1_0000_0000) as u32,
        )
    }
}

/// The colouring that the two switches ask for; plain text wins.
pub open spec fn mode_of(plain_text: bool, no_color: bool) -> RenderMode {
    if plain_text {
        RenderMode::PlainText
    } else if no_color {
        RenderMode::NoColor
    } else {
        RenderMode::Color
    }
}

/// The pair of colours that every cell is reduced to, where the mode fixes
/// one.
pub open spec fn fixed_colors(mode: RenderMode) -> Option<(Color, Color)> {
    if mode == RenderMode::PlainText {
        Some((Color::white(), Color::black()))
    } else {
        None
    }
}

/// A value of at most 128 bits, cut off at the largest `usize`.
fn saturate(value: u128) -> (out: usize)
    ensures
        out == saturated(value as int),
{
    if value > usize::MAX as u128 {
        usize::MAX
    } else {
        value as usize
    }
}

impl RenderSettings {
    /// Reduces the width or the height of a size in glyphs so that the text
    /// has the proportions of the image.
    pub fn keep_aspect(
        width: usize,
        height: usize,
        image_width: u32,
        image_height: u32,
        use_width: Option<bool>,
    ) -> (out: (usize, usize))
        requires
            image_width > 0,
            image_height > 0,
        ensures
            out == kept_aspect(width, height, image_width, image_height, use_width),
    {
        assert(4 * height * image_width <= 4 * 0xffff_ffff_ffff_ffff * 0xffff_ffff && 2 * width
            * image_height <= 2 * 0xffff_ffff_ffff_ffff * 0xffff_ffff) by (nonlinear_arith)
            requires
                0 <= height <= 0xffff_ffff_ffff_ffff,
                0 <= width <= 0xffff_ffff_ffff_ffff,
                0 <= image_width <= 0xffff_ffff,
                0 <= image_height <= 0xffff_ffff,
        ;
        let new_width: u128 = (4 * (height as u128) * (image_width as u128)) / (2 * (
        image_height as u128));
        let new_height: u128 = (2 * (width as u128) * (image_height as u128)) / (4 * (
        image_width as u128));
        let by_width = match use_width {
            Some(choice) => choice,
            None => new_height < height as u128,
        };
        if by_width {
            (width, saturate(new_height))
        } else {
            (saturate(new_width), height)
        }
    }

    /// The size in glyphs to fall back on: the size of the terminal, columns
    /// first, where one was detected, else the defaults.
    pub fn autodetected_size(detected: Option<(u16, u16)>) -> (out: (usize, usize))
        ensures
            out == detected_or_default(detected),
    {
        match detected {
            Some((cols, rows)) => (cols as usize, rows as usize),
            None => (DEFAULT_WIDTH, DEFAULT_HEIGHT),
        }
    }

    /// Settles what a run renders, like `from_args`, for every image:
    /// `None` where the proportions of an image without pixels would have to
    /// be kept.
    pub fn try_from_args(
        args: &CliArgs,
        image_width: u32,
        image_height: u32,
        detected: Option<(u16, u16)>,
    ) -> (out: Option<RenderSettings>)
        ensures
            out.is_some() == (keeps_aspect(args) ==> image_width > 0 && image_height > 0),
            out.is_some() ==> (out.unwrap().im_width, out.unwrap().im_height) == size_in_pixels(
                args,
                image_width,
                image_height,
                detected,
            ),
            out.is_some() ==> out.unwrap().render_mode == mode_of(args.plain_text, args.no_color),
            out.is_some() ==> out.unwrap().output == args.output,
    {
        let keeps = !args.use_original_image_size && !args.no_keep_aspect && !(args.width.is_some()
            && args.height.is_some());
        if keeps && (image_width == 0 || image_height == 0) {
            None
        } else {
            Some(Self::from_args(args, image_width, image_height, detected))
        }
    }

    /// Settles what a run renders, from its options, the size of the image
    /// in pixels and the size of the terminal, if one was detected. Where the
    /// proportions of the image are kept, the image must have pixels.
    pub fn from_args(
        args: &CliArgs,
        image_width: u32,
        image_height: u32,
        detected: Option<(u16, u16)>,
    ) -> (out: RenderSettings)
        requires
            keeps_aspect(args) ==> image_width > 0 && image_height > 0,
        ensures
            (out.im_width, out.im_height) == size_in_pixels(
                args,
                image_width,
                image_height,
                detected,
            ),
            out.render_mode == mode_of(args.plain_text, args.no_color),
            out.output == args.output,
    {
        let output_size: (u32, u32) = if args.use_original_image_size {
            (image_width, image_height)
        } else {
            let (dw, dh) = if args.no_autosize {
                (DEFAULT_WIDTH, DEFAULT_HEIGHT)
            } else {
                Self::autodetected_size(detected)
            };
            let unwrapped_size = (
                match args.width {
                    Some(w) => w,
                    None => dw,
                },
                match args.height {
                    Some(h) => h,
                    None => dh,
                },
            );
            let (fw, fh) = if args.no_keep_aspect || (args.width.is_some()
                && args.height.is_some()) {
                unwrapped_size
            } else {
                Self::keep_aspect(
                    unwrapped_size.0,
                    unwrapped_size.1,
                    image_width,
                    image_height,
                    Some(args.width.is_some()),
                )
            };
            (wrapped_pixels(fw, 2), wrapped_pixels(fh, 4))
        };
        Self {
            im_height: output_size.1,
            im_width: output_size.0,
            render_mode: if args.plain_text {
                RenderMode::PlainText
            } else if args.no_color {
                RenderMode::NoColor
            } else {
                RenderMode::Color
            },
            output: args.output.clone(),
        }
    }
}

/// The number of pixels that `glyphs` glyphs of `side` pixels cover, wrapped
/// to 32 bits.
fn wrapped_pixels(glyphs: usize, side: u64) -> (out: u32)
    requires
        side == 2 || side == 4,
    ensures
        out == (glyphs * side) % 0x1_0000_0000,
{
    let low: u64 = (glyphs as u64) % 0x1_0000_0000;
    let product: u64 = low * side;
    assert((glyphs * side) % 0x1_0000_0000 == (((glyphs as int) % 0x1_0000_0000) * side)
        % 0x1_0000_0000) by (nonlinear_arith)
        requires
            side == 2 || side == 4,
    ;
    (product % 0x1_0000_0000) as u32
}

/// Renders a decoded image: cuts it into cells, reduces every cell as the
/// mode says (to white and black for plain text, to its own contrast pair
/// otherwise), and writes the cells out, in colour only in colour mode.
pub fn render_raster(
    img: &Raster,
    mode: RenderMode,
    invert_cell: bool,
    charset: Option<&str>,
    transparency_t: i32,
) -> (out: (String, CharsetWarnings))
    ensures
        out.0@ == composed(
            computed_grid(partition_of(*img), fixed_colors(mode), invert_cell).cells,
            partition_of(*img).width,
            table_of(charset),
            mode == RenderMode::Color,
            transparency_t,
            partition_of(*img).cells.len() as int,
        ),
        out.1 == warning_of(
            computed_grid(partition_of(*img), fixed_colors(mode), invert_cell).cells,
            table_of(charset),
        ),
{
    let cells = CellGrid::from(img);
    let computed = match mode {
        RenderMode::Color => cells.to_computed(invert_cell),
        RenderMode::NoColor => cells.to_computed(invert_cell),
        RenderMode::PlainText => cells.to_computed_ab(
            &Color::white(),
            &Color::black(),
            invert_cell,
        ),
    };
    let colored = match mode {
        RenderMode::Color => true,
        _ => false,
    };
    computed.to_string(colored, charset, transparency_t)
}

} // verus!
