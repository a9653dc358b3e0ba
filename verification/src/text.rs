//! Anti-aliased text from the pre-rasterized Noto Sans Mono glyphs.
//!
//! Each glyph is a coverage map (one 0..=255 byte per pixel); the text colour
//! is blended over the canvas with that coverage as opacity. The font is
//! monospace, so every glyph of a size advances the pen by the same width.

use vstd::prelude::*;

use noto_sans_mono_bitmap::{get_raster, get_raster_width, FontWeight, RasterHeight};

use crate::canvas::{in_rect, lemma_painted_outside, painted, slice_rows, Canvas, Pixel};
use crate::strings::chars_of;
use crate::theme::Bgra;

verus! {

/// The text sizes of the interface, each one of the font's raster heights.
#[derive(Clone, Copy, PartialEq, Eq, Debug, Structural)]
pub enum Size {
    /// 20 px: body text, hints.
    Body,
    /// 24 px: sub-labels.
    H3,
    /// 32 px: titles and headings.
    H2,
}

/// The font weights in use.
#[derive(Clone, Copy, PartialEq, Eq, Debug, Structural)]
pub enum Weight {
    Regular,
    Bold,
}

impl Size {
    /// The height in pixels of a glyph's raster at this size.
    pub open spec fn px_height(self) -> nat {
        match self {
            Size::Body => 20,
            Size::H3 => 24,
            Size::H2 => 32,
        }
    }

    /// The width in pixels of every glyph at this size (either weight).
    pub open spec fn px_width(self) -> nat {
        match self {
            Size::Body => 9,
            Size::H3 => 11,
            Size::H2 => 14,
        }
    }

    /// The line height of this size.
    pub fn height(self) -> (h: usize)
        ensures
            h == self.px_height(),
    {
        raster_height(self)
    }
}

/// What the font draws for `c`: its coverage rows, or none where the font
/// lacks the character.
pub uninterp spec fn noto_glyph(c: char, weight: Weight, size: Size) -> Option<Seq<Seq<u8>>>;

/// `noto_sans_mono_bitmap::RasterHeight::val` for the raster height of `size`:
/// the enum's discriminant, which is the height in pixels.
#[verifier::external_body]
fn raster_height(size: Size) -> (h: usize)
    ensures
        h == size.px_height(),
{
    let r = match size {
        Size::Body => RasterHeight::Size20,
        Size::H3 => RasterHeight::Size24,
        Size::H2 => RasterHeight::Size32,
    };
    r.val()
}

/// `noto_sans_mono_bitmap::get_raster_width`: the crate's constant glyph
/// width for a weight and raster height (9, 11 and 14 px at 20, 24 and 32 px,
/// for regular and bold alike).
#[verifier::external_body]
fn raster_width(size: Size, weight: Weight) -> (w: usize)
    ensures
        w == size.px_width(),
{
    let r = match size {
        Size::Body => RasterHeight::Size20,
        Size::H3 => RasterHeight::Size24,
        Size::H2 => RasterHeight::Size32,
    };
    let f = match weight {
        Weight::Regular => FontWeight::Regular,
        Weight::Bold => FontWeight::Bold,
    };
    get_raster_width(f, r)
}

/// `noto_sans_mono_bitmap::get_raster` followed by `RasterizedChar::raster`:
/// the glyph's coverage rows, `None` for a character the font does not have.
/// Which rows come back is named by [`noto_glyph`], not stated; what is stated
/// is the shape the crate documents: `height` rows of `width` bytes each.
#[verifier::external_body]
fn glyph(c: char, size: Size, weight: Weight) -> (g: Option<&'static [&'static [u8]]>)
    ensures
        match g {
            Some(r) => noto_glyph(c, weight, size) == Some(slice_rows(r@)),
            None => noto_glyph(c, weight, size) is None,
        },
        g matches Some(r) ==> {
            &&& r@.len() == size.px_height()
            &&& forall|k: int| 0 <= k < r@.len() ==> (#[trigger] r@[k])@.len() == size.px_width()
        },
{
    let r = match size {
        Size::Body => RasterHeight::Size20,
        Size::H3 => RasterHeight::Size24,
        Size::H2 => RasterHeight::Size32,
    };
    let f = match weight {
        Weight::Regular => FontWeight::Regular,
        Weight::Bold => FontWeight::Bold,
    };
    match get_raster(c, f, r) {
        Some(raster) => Some(raster.raster()),
        None => None,
    }
}

/// The advance width of one character (the font is monospace).
pub fn char_width(size: Size, weight: Weight) -> (w: usize)
    ensures
        w == size.px_width(),
{
    raster_width(size, weight)
}

/// The width in pixels of `text` at a size: its character count times the
/// advance width.
pub open spec fn text_width(text: Seq<char>, size: Size) -> int {
    (text.len() * size.px_width()) as int
}

/// Total pixel width of `s`.
pub fn measure(s: &str, size: Size, weight: Weight) -> (n: usize)
    requires
        s@.len() * size.px_width() <= usize::MAX,
    ensures
        n == text_width(s@, size),
{
    let chars = chars_of(s);
    let cw = char_width(size, weight);
    chars.len() * cw
}

/// The line height of a size.
pub fn line_height(size: Size) -> (h: usize)
    ensures
        h == size.px_height(),
{
    size.height()
}

/// The pixels after the characters `text` are drawn left to right from
/// `(x, y)`: the `k`-th glyph's top-left corner is at
/// `(x + k * width, y)`, and a character the font lacks leaves a blank advance.
pub open spec fn text_drawn(
    old: Seq<Pixel>,
    w: int,
    x: int,
    y: int,
    text: Seq<char>,
    size: Size,
    weight: Weight,
    color: Bgra,
) -> Seq<Pixel>
    decreases text.len(),
{
    if text.len() == 0 {
        old
    } else {
        let before = text_drawn(old, w, x, y, text.drop_last(), size, weight, color);
        let pen = x + (text.len() - 1) * size.px_width();
        match noto_glyph(text.last(), weight, size) {
            Some(rows) => painted(before, w, pen, y, rows, color),
            None => before,
        }
    }
}

/// Whether a line of `n` characters at size `size` starting at `x` keeps
/// every pen position inside `i32`.
pub open spec fn text_fits(x: int, n: int, size: Size) -> bool {
    x + n * size.px_width() <= i32::MAX
}

/// Draws `s` with its top-left corner at `(x, y)` and returns the pen
/// position after the last character.
pub fn draw(canvas: &mut Canvas, x: i32, y: i32, s: &str, size: Size, weight: Weight, color: Bgra) -> (pen: i32)
    requires
        old(canvas).wf(),
        text_fits(x as int, s@.len() as int, size),
    ensures
        final(canvas).wf(),
        final(canvas).width() == old(canvas).width(),
        final(canvas).height() == old(canvas).height(),
        final(canvas).pixels() == text_drawn(
            old(canvas).pixels(),
            old(canvas).width() as int,
            x as int,
            y as int,
            s@,
            size,
            weight,
            color,
        ),
        pen == x + text_width(s@, size),
        forall|i: int|
            0 <= i < old(canvas).pixels().len() && !in_rect(
                i % old(canvas).width() as int,
                i / old(canvas).width() as int,
                x as int,
                y as int,
                text_width(s@, size),
                size.px_height() as int,
            ) ==> #[trigger] final(canvas).pixels()[i] == old(canvas).pixels()[i],
{
    let ghost old_px = canvas.pixels();
    let ghost cw_canvas = canvas.width() as int;
    let chars = chars_of(s);
    let cw = char_width(size, weight);
    let mut pen: i32 = x;
    let mut k: usize = 0;
    while k < chars.len()
        invariant
            canvas.wf(),
            canvas.width() == cw_canvas,
            canvas.height() == old(canvas).height(),
            old_px == old(canvas).pixels(),
            cw_canvas == old(canvas).width(),
            chars@ == s@,
            cw == size.px_width(),
            k <= chars@.len(),
            text_fits(x as int, s@.len() as int, size),
            pen == x + k * cw,
            canvas.pixels() == text_drawn(
                old_px,
                cw_canvas,
                x as int,
                y as int,
                s@.take(k as int),
                size,
                weight,
                color,
            ),
            canvas.pixels().len() == old_px.len(),
            forall|i: int|
                0 <= i < old_px.len() && !in_rect(
                    i % cw_canvas,
                    i / cw_canvas,
                    x as int,
                    y as int,
                    k * cw,
                    size.px_height() as int,
                ) ==> #[trigger] canvas.pixels()[i] == old_px[i],
        decreases chars@.len() - k,
    {
        proof {
            assert(x + (k + 1) * cw <= x + s@.len() * cw && (k + 1) * cw == k * cw + cw) by (nonlinear_arith)
                requires
                    k < s@.len(),
                    cw >= 0,
            ;
        }
        let ch = chars[k];
        let g = glyph(ch, size, weight);
        let ghost before = canvas.pixels();
        match g {
            Some(rows) => {
                canvas.paint(pen, y, rows, color);
                proof {
                    canvas.lemma_wf();
                    lemma_painted_outside(
                        before,
                        cw_canvas,
                        pen as int,
                        y as int,
                        slice_rows(rows@),
                        color,
                        cw as int,
                        size.px_height() as int,
                    );
                }
            },
            None => {},
        }
        proof {
            assert forall|i: int|
                0 <= i < old_px.len() && !in_rect(
                    i % cw_canvas,
                    i / cw_canvas,
                    x as int,
                    y as int,
                    (k + 1) * cw,
                    size.px_height() as int,
                ) implies #[trigger] canvas.pixels()[i] == old_px[i] by {
                assert(!in_rect(i % cw_canvas, i / cw_canvas, x as int, y as int, k * cw, size.px_height() as int));
                assert(before[i] == old_px[i]);
            }
        }
        proof {
            let t = s@.take(k + 1);
            assert(t.drop_last() =~= s@.take(k as int));
            assert(t.last() == ch);
        }
        pen = pen + cw as i32;
        k = k + 1;
    }
    proof {
        assert(s@.take(k as int) =~= s@);
        assert(k * cw == text_width(s@, size));
    }
    pen
}

/// Draws `s` centred horizontally in `[x, x + w)` with its top at `y`: the
/// text starts `(w - width) / 2` pixels in, rounded toward zero.
pub fn draw_centered(
    canvas: &mut Canvas,
    x: i32,
    w: i32,
    y: i32,
    s: &str,
    size: Size,
    weight: Weight,
    color: Bgra,
)
    requires
        old(canvas).wf(),
        text_width(s@, size) <= i32::MAX,
        i32::MIN <= w - text_width(s@, size),
        i32::MIN <= x + crate::canvas::div_trunc(w - text_width(s@, size), 2) <= i32::MAX,
        text_fits(x + crate::canvas::div_trunc(w - text_width(s@, size), 2), s@.len() as int, size),
    ensures
        final(canvas).wf(),
        final(canvas).width() == old(canvas).width(),
        final(canvas).height() == old(canvas).height(),
        final(canvas).pixels() == text_drawn(
            old(canvas).pixels(),
            old(canvas).width() as int,
            x + crate::canvas::div_trunc(w - text_width(s@, size), 2),
            y as int,
            s@,
            size,
            weight,
            color,
        ),
        forall|i: int|
            0 <= i < old(canvas).pixels().len() && !in_rect(
                i % old(canvas).width() as int,
                i / old(canvas).width() as int,
                x + crate::canvas::div_trunc(w - text_width(s@, size), 2),
                y as int,
                text_width(s@, size),
                size.px_height() as int,
            ) ==> #[trigger] final(canvas).pixels()[i] == old(canvas).pixels()[i],
{
    let tw = measure(s, size, weight) as i32;
    let start = x + (w - tw) / 2;
    draw(canvas, start, y, s, size, weight, color);
}

} // verus!
