//! Performing the picker's drawing operations on the canvas, and what a whole
//! frame does to its pixels.
//!
//! The anti-aliased values of the rounded shapes' corner squares are
//! floating point and come from the caller, one mask per operation.

use vstd::prelude::*;

use crate::canvas::{
    blitted, border_rows, borrow_rows, clamped_radius, div_trunc, gradient_t, in_rect, inset_radius,
    lemma_blitted_outside, lemma_coords, owned_rows, painted, px, shape_rows, slice_rows, Canvas, Pixel,
};
use crate::picker::{footer_ops, frame_ops, hint_advance, hint_ops, op_views, tile_ops, DrawOp, OpView, Tile};
use crate::text::{draw, draw_centered, text_drawn, text_fits, text_width, Size};

verus! {

/// Where centred text starts: half the spare room in, rounded toward zero.
pub open spec fn centred_start(x: int, w: int, text: Seq<char>, size: Size) -> int {
    x + div_trunc(w - text_width(text, size), 2)
}

/// Whether an operation can be performed on a canvas `ch` rows tall: every
/// coordinate it computes fits an `i32`, and an image holds all its pixels.
pub open spec fn performable(op: OpView, ch: int) -> bool {
    match op {
        OpView::Gradient { .. } => ch * 255 <= usize::MAX,
        OpView::RoundBorder { w, h, r, t, .. } => {
            &&& i32::MIN <= 2 * t <= i32::MAX
            &&& i32::MIN <= w - 2 * t <= i32::MAX
            &&& i32::MIN <= h - 2 * t <= i32::MAX
            &&& i32::MIN <= r - t <= i32::MAX
        },
        OpView::Circle { cx, cy, r, .. } => {
            &&& i32::MIN <= cx - r <= i32::MAX
            &&& i32::MIN <= cy - r <= i32::MAX
            &&& i32::MIN <= 2 * r <= i32::MAX
        },
        OpView::Image { w, h, image, .. } => w * h * 4 <= image.len(),
        OpView::Text { x, text, size, .. } => text_fits(x, text.len() as int, size),
        OpView::Centered { x, w, text, size, .. } => {
            &&& text_width(text, size) <= i32::MAX
            &&& i32::MIN <= w - text_width(text, size)
            &&& i32::MIN <= centred_start(x, w, text, size) <= i32::MAX
            &&& text_fits(centred_start(x, w, text, size), text.len() as int, size)
        },
        _ => true,
    }
}

/// The pixels of a `cw × ch` canvas after one operation; `shape` gives the
/// anti-aliased values of a rounded shape's corner squares (and `inner`
/// those of a border's inset outline).
pub open spec fn op_result(
    p: Seq<Pixel>,
    cw: int,
    ch: int,
    op: OpView,
    shape: Seq<Seq<u8>>,
    inner: Seq<Seq<u8>>,
) -> Seq<Pixel> {
    match op {
        OpView::Gradient { top, bottom } => Seq::new(p.len(), |i: int| px(top.mixed(bottom, gradient_t(i / cw, ch)))),
        OpView::RoundRect { x, y, w, h, r, color } => painted(
            p,
            cw,
            x,
            y,
            shape_rows(shape, w, h, clamped_radius(w, h, r)),
            color,
        ),
        OpView::RoundBorder { x, y, w, h, r, t, color } => painted(
            p,
            cw,
            x,
            y,
            border_rows(shape_rows(shape, w, h, r), shape_rows(inner, w - 2 * t, h - 2 * t, inset_radius(r, t)), t),
            color,
        ),
        OpView::Circle { cx, cy, r, color } => painted(
            p,
            cw,
            cx - r,
            cy - r,
            shape_rows(shape, 2 * r, 2 * r, clamped_radius(2 * r, 2 * r, r)),
            color,
        ),
        OpView::Image { x, y, w, h, image } => blitted(p, cw, x, y, image, w, h),
        OpView::Text { x, y, text, size, weight, color } => text_drawn(p, cw, x, y, text, size, weight, color),
        OpView::Centered { x, w, y, text, size, weight, color } => text_drawn(
            p,
            cw,
            centred_start(x, w, text, size),
            y,
            text,
            size,
            weight,
            color,
        ),
    }
}

/// The box an operation draws in, as `(x, y, width, height)`: the whole
/// canvas for the gradient, the shape's box, the image's, or the line of text.
pub open spec fn op_box(op: OpView, cw: int, ch: int) -> (int, int, int, int) {
    match op {
        OpView::Gradient { .. } => (0, 0, cw, ch),
        OpView::RoundRect { x, y, w, h, .. } => (x, y, w, h),
        OpView::RoundBorder { x, y, w, h, .. } => (x, y, w, h),
        OpView::Circle { cx, cy, r, .. } => (cx - r, cy - r, 2 * r, 2 * r),
        OpView::Image { x, y, w, h, .. } => (x, y, w, h),
        OpView::Text { x, y, text, size, .. } => (x, y, text_width(text, size), size.px_height() as int),
        OpView::Centered { x, w, y, text, size, .. } => (
            centred_start(x, w, text, size),
            y,
            text_width(text, size),
            size.px_height() as int,
        ),
    }
}

/// Whether canvas position `(col, row)` lies outside the box of `op`.
pub open spec fn outside_op(op: OpView, cw: int, ch: int, col: int, row: int) -> bool {
    let b = op_box(op, cw, ch);
    !in_rect(col, row, b.0, b.1, b.2, b.3)
}

/// Whether canvas position `(col, row)` lies outside the box of every one of `ops`.
pub open spec fn outside_all(ops: Seq<OpView>, cw: int, ch: int, col: int, row: int) -> bool {
    forall|k: int| 0 <= k < ops.len() ==> outside_op(#[trigger] ops[k], cw, ch, col, row)
}

/// The pixels after the operations, in order; operation `k` is drawn
/// through `shapes[k]` and `inners[k]`.
pub open spec fn performed(
    p: Seq<Pixel>,
    cw: int,
    ch: int,
    ops: Seq<OpView>,
    shapes: Seq<Seq<Seq<u8>>>,
    inners: Seq<Seq<Seq<u8>>>,
) -> Seq<Pixel>
    decreases ops.len(),
{
    if ops.len() == 0 {
        p
    } else {
        let n = ops.len() - 1;
        op_result(performed(p, cw, ch, ops.drop_last(), shapes, inners), cw, ch, ops[n], shapes[n], inners[n])
    }
}

/// The rows of each owned mask.
pub open spec fn mask_seqs(v: Seq<Vec<Vec<u8>>>) -> Seq<Seq<Seq<u8>>> {
    v.map_values(|m: Vec<Vec<u8>>| owned_rows(m@))
}

/// Performs one drawing operation: the pixels become [`op_result`], and
/// every pixel outside the operation's box keeps its value.
pub fn perform_op(canvas: &mut Canvas, op: &DrawOp, shape: &Vec<Vec<u8>>, inner: &Vec<Vec<u8>>)
    requires
        old(canvas).wf(),
        performable(op@, old(canvas).height() as int),
    ensures
        final(canvas).wf(),
        final(canvas).width() == old(canvas).width(),
        final(canvas).height() == old(canvas).height(),
        final(canvas).pixels() == op_result(
            old(canvas).pixels(),
            old(canvas).width() as int,
            old(canvas).height() as int,
            op@,
            owned_rows(shape@),
            owned_rows(inner@),
        ),
        forall|i: int|
            0 <= i < old(canvas).pixels().len() && outside_op(
                op@,
                old(canvas).width() as int,
                old(canvas).height() as int,
                i % old(canvas).width() as int,
                i / old(canvas).width() as int,
            ) ==> #[trigger] final(canvas).pixels()[i] == old(canvas).pixels()[i],
{
    let ghost old_px = canvas.pixels();
    let ghost cw = canvas.width() as int;
    let ghost ch = canvas.height() as int;
    proof {
        canvas.lemma_wf();
    }
    let ghost s = owned_rows(shape@);
    let ghost n = owned_rows(inner@);
    match op {
        DrawOp::Gradient { top, bottom } => {
            canvas.gradient_v(*top, *bottom);
            proof {
                assert(canvas.pixels() =~= op_result(old_px, cw, ch, op@, s, n));
                assert forall|i: int|
                    0 <= i < old_px.len() && outside_op(op@, cw, ch, i % cw, i / cw) implies #[trigger] canvas.pixels()[i]
                    == old_px[i] by {
                    lemma_coords(i, cw, ch);
                }
            }
        },
        DrawOp::RoundRect { x, y, w, h, r, color } => {
            let rows = borrow_rows(shape);
            canvas.round_rect(*x, *y, *w, *h, *r, rows.as_slice(), *color);
            proof {
                assert(slice_rows(rows@) =~= s);
            }
        },
        DrawOp::RoundBorder { x, y, w, h, r, t, color } => {
            let outer = borrow_rows(shape);
            let inset = borrow_rows(inner);
            canvas.round_border(*x, *y, *w, *h, *r, *t, outer.as_slice(), inset.as_slice(), *color);
            proof {
                assert(slice_rows(outer@) =~= s);
                assert(slice_rows(inset@) =~= n);
            }
        },
        DrawOp::Circle { cx, cy, r, color } => {
            let rows = borrow_rows(shape);
            canvas.fill_circle(*cx, *cy, *r, rows.as_slice(), *color);
            proof {
                assert(slice_rows(rows@) =~= s);
            }
        },
        DrawOp::Image { x, y, logo } => {
            canvas.blit_bgra(*x, *y, logo.w, logo.h, logo.bgra);
            proof {
                lemma_blitted_outside(old_px, cw, *x as int, *y as int, logo.bgra@, logo.w as int, logo.h as int);
            }
        },
        DrawOp::Text { x, y, text, size, weight, color } => {
            draw(canvas, *x, *y, text.as_str(), *size, *weight, *color);
        },
        DrawOp::Centered { x, w, y, text, size, weight, color } => {
            draw_centered(canvas, *x, *w, *y, text.as_str(), *size, *weight, *color);
        },
    }
}

/// Performs the operations in order, operation `k` through the masks
/// `shapes[k]` and `inners[k]`: the pixels become [`performed`], and every
/// pixel outside the box of every operation keeps its value.
pub fn perform_ops(
    canvas: &mut Canvas,
    ops: &Vec<DrawOp>,
    shapes: &Vec<Vec<Vec<u8>>>,
    inners: &Vec<Vec<Vec<u8>>>,
)
    requires
        old(canvas).wf(),
        shapes@.len() == ops@.len(),
        inners@.len() == ops@.len(),
        forall|k: int| 0 <= k < ops@.len() ==> performable(#[trigger] ops@[k]@, old(canvas).height() as int),
    ensures
        final(canvas).wf(),
        final(canvas).width() == old(canvas).width(),
        final(canvas).height() == old(canvas).height(),
        final(canvas).pixels() == performed(
            old(canvas).pixels(),
            old(canvas).width() as int,
            old(canvas).height() as int,
            op_views(ops@),
            mask_seqs(shapes@),
            mask_seqs(inners@),
        ),
        forall|i: int|
            0 <= i < old(canvas).pixels().len() && outside_all(
                op_views(ops@),
                old(canvas).width() as int,
                old(canvas).height() as int,
                i % old(canvas).width() as int,
                i / old(canvas).width() as int,
            ) ==> #[trigger] final(canvas).pixels()[i] == old(canvas).pixels()[i],
{
    let ghost old_px = canvas.pixels();
    let ghost cw = canvas.width() as int;
    let ghost ch = canvas.height() as int;
    let ghost views = op_views(ops@);
    let ghost ss = mask_seqs(shapes@);
    let ghost ns = mask_seqs(inners@);
    proof {
        canvas.lemma_wf();
    }
    let mut k: usize = 0;
    while k < ops.len()
        invariant
            k <= ops@.len(),
            canvas.wf(),
            canvas.width() == cw,
            canvas.height() == ch,
            cw == old(canvas).width(),
            ch == old(canvas).height(),
            old_px == old(canvas).pixels(),
            old_px.len() == canvas.pixels().len(),
            old_px.len() == cw * ch,
            views == op_views(ops@),
            ss == mask_seqs(shapes@),
            ns == mask_seqs(inners@),
            shapes@.len() == ops@.len(),
            inners@.len() == ops@.len(),
            forall|j: int| 0 <= j < ops@.len() ==> performable(#[trigger] ops@[j]@, ch),
            canvas.pixels() == performed(old_px, cw, ch, views.take(k as int), ss, ns),
            forall|i: int|
                0 <= i < old_px.len() && (forall|j: int| 0 <= j < k ==> outside_op(#[trigger] views[j], cw, ch, i % cw, i / cw))
                    ==> #[trigger] canvas.pixels()[i] == old_px[i],
        decreases ops@.len() - k,
    {
        let ghost before = canvas.pixels();
        proof {
            assert(ops@[k as int]@ == views[k as int]);
            assert(owned_rows(shapes@[k as int]@) == ss[k as int]);
            assert(owned_rows(inners@[k as int]@) == ns[k as int]);
        }
        perform_op(canvas, &ops[k], &shapes[k], &inners[k]);
        proof {
            canvas.lemma_wf();
            let t = views.take(k + 1);
            assert(t.drop_last() =~= views.take(k as int));
            assert(t[k as int] == views[k as int]);
            assert forall|i: int|
                0 <= i < old_px.len() && (forall|j: int| 0 <= j < k + 1 ==> outside_op(#[trigger] views[j], cw, ch, i % cw, i / cw))
                    implies #[trigger] canvas.pixels()[i] == old_px[i] by {
                assert(outside_op(views[k as int], cw, ch, i % cw, i / cw));
                assert(before[i] == old_px[i]);
            }
        }
        k = k + 1;
    }
    proof {
        assert(views.take(k as int) =~= views);
        assert forall|i: int|
            0 <= i < old_px.len() && outside_all(views, cw, ch, i % cw, i / cw) implies #[trigger] canvas.pixels()[i]
            == old_px[i] by {
            assert forall|j: int| 0 <= j < k implies outside_op(#[trigger] views[j], cw, ch, i % cw, i / cw) by {}
        }
    }
}

// --- Laws -----------------------------------------------------------------------

/// Operations that start with the backdrop gradient give the same pixels
/// whatever the canvas held before: the gradient overwrites every pixel.
pub proof fn law_gradient_first_forgets_old_pixels(
    p1: Seq<Pixel>,
    p2: Seq<Pixel>,
    cw: int,
    ch: int,
    ops: Seq<OpView>,
    shapes: Seq<Seq<Seq<u8>>>,
    inners: Seq<Seq<Seq<u8>>>,
)
    requires
        p1.len() == p2.len(),
        ops.len() > 0,
        ops[0] is Gradient,
    ensures
        performed(p1, cw, ch, ops, shapes, inners) == performed(p2, cw, ch, ops, shapes, inners),
    decreases ops.len(),
{
    let n = ops.len() - 1;
    if ops.len() > 1 {
        assert(ops.drop_last()[0] == ops[0]);
        law_gradient_first_forgets_old_pixels(p1, p2, cw, ch, ops.drop_last(), shapes, inners);
    } else {
        assert(performed(p1, cw, ch, ops.drop_last(), shapes, inners) == p1);
        assert(performed(p2, cw, ch, ops.drop_last(), shapes, inners) == p2);
        assert(op_result(p1, cw, ch, ops[n], shapes[n], inners[n]) =~= op_result(p2, cw, ch, ops[n], shapes[n], inners[n]));
    }
}

/// Two renders of the same picker state onto canvases of the same size give
/// the same frame, whatever either canvas showed before.
pub proof fn law_same_state_same_frame(
    p1: Seq<Pixel>,
    p2: Seq<Pixel>,
    w: int,
    h: int,
    tiles: Seq<Tile>,
    st: crate::picker::State,
    shapes: Seq<Seq<Seq<u8>>>,
    inners: Seq<Seq<Seq<u8>>>,
)
    requires
        p1.len() == p2.len(),
    ensures
        performed(p1, w, h, frame_ops(w, h, tiles, st), shapes, inners) == performed(
            p2,
            w,
            h,
            frame_ops(w, h, tiles, st),
            shapes,
            inners,
        ),
{
    let f = frame_ops(w, h, tiles, st);
    assert(f[0] is Gradient);
    law_gradient_first_forgets_old_pixels(p1, p2, w, h, f, shapes, inners);
}

proof fn lemma_outside_concat(a: Seq<OpView>, b: Seq<OpView>, cw: int, ch: int, col: int, row: int)
    requires
        outside_all(a, cw, ch, col, row),
        outside_all(b, cw, ch, col, row),
    ensures
        outside_all(a + b, cw, ch, col, row),
{
    assert forall|k: int| 0 <= k < (a + b).len() implies outside_op(#[trigger] (a + b)[k], cw, ch, col, row) by {
        if k < a.len() {
            assert((a + b)[k] == a[k]);
        } else {
            assert((a + b)[k] == b[k - a.len()]);
        }
    }
}

/// The box a tile is drawn in when its unfocused box has its top-left corner
/// at `(x, y)`: the 340 × 420 tile, or, when focused, the tile lifted by 10
/// pixels on each side with its 2-pixel glow outline.
pub open spec fn tile_bounds(x: int, y: int, focused: bool) -> (int, int, int, int) {
    if focused {
        (x - 12, y - 12, 364, 444)
    } else {
        (x, y, 340, 420)
    }
}

/// A tile draws only inside its box, provided its logo and its two lines of
/// text fit the tile's width (and the logo fits under its top margin).
pub proof fn law_tile_stays_in_its_box(
    x: int,
    y: int,
    tile: Tile,
    focused: bool,
    is_default: bool,
    cw: int,
    ch: int,
    col: int,
    row: int,
)
    requires
        tile.logo.w <= 340,
        tile.logo.h <= 364,
        text_width(tile.title@, Size::H2) <= 340,
        text_width(tile.subtitle@, Size::Body) <= 340,
        !in_rect(
            col,
            row,
            tile_bounds(x, y, focused).0,
            tile_bounds(x, y, focused).1,
            tile_bounds(x, y, focused).2,
            tile_bounds(x, y, focused).3,
        ),
    ensures
        outside_all(tile_ops(x, y, tile, focused, is_default), cw, ch, col, row),
{
    reveal_strlit("NOT INSTALLED");
    reveal_strlit("DEFAULT");
    let ops = tile_ops(x, y, tile, focused, is_default);
    let bx = if focused { x - 10 } else { x };
    let by = if focused { y - 10 } else { y };
    let tw: int = if focused { 360 } else { 340 };
    let th: int = if focused { 440 } else { 420 };
    let body = seq![ops[0]];
    let nb: int = if focused { 2 } else { 1 };
    let border = ops.subrange(1, 1 + nb);
    let logo = ops.subrange(1 + nb, 2 + nb);
    let texts = ops.subrange(2 + nb, 4 + nb);
    let badge = ops.subrange(4 + nb, ops.len() as int);
    assert(ops =~= body + border + logo + texts + badge);
    assert(outside_all(body, cw, ch, col, row));
    assert(outside_all(border, cw, ch, col, row));
    assert(outside_all(logo, cw, ch, col, row));
    assert(outside_all(texts, cw, ch, col, row)) by {
        assert(texts[0] == ops[2 + nb]);
        assert(texts[1] == ops[3 + nb]);
    }
    assert(outside_all(badge, cw, ch, col, row)) by {
        if badge.len() > 0 {
            assert(badge[0] == ops[4 + nb]);
        }
        if badge.len() > 1 {
            assert(badge[1] == ops[5 + nb]);
        }
    }
    lemma_outside_concat(body, border, cw, ch, col, row);
    lemma_outside_concat(body + border, logo, cw, ch, col, row);
    lemma_outside_concat(body + border + logo, texts, cw, ch, col, row);
    lemma_outside_concat(body + border + logo + texts, badge, cw, ch, col, row);
}

/// The width of the footer's row of hints.
pub open spec fn footer_width() -> int {
    hint_advance("Boot"@) + hint_advance("Firmware Setup"@) + hint_advance("Set Default"@) - 36
}

/// The footer draws only in its band: 30 pixels tall from 56 above the
/// bottom of a `w × h` canvas, as wide as its row of hints and centred.
pub proof fn law_footer_stays_in_its_band(w: int, h: int, cw: int, ch: int, col: int, row: int)
    requires
        !in_rect(col, row, div_trunc(w - footer_width(), 2), h - 56, footer_width(), 30),
    ensures
        outside_all(footer_ops(w, h), cw, ch, col, row),
{
    reveal_strlit("Boot");
    reveal_strlit("Firmware Setup");
    reveal_strlit("Set Default");
    reveal_strlit("A");
    reveal_strlit("B");
    reveal_strlit("Y");
    let y = h - 56;
    let cx0 = div_trunc(w - footer_width(), 2);
    let cx1 = cx0 + hint_advance("Boot"@);
    let cx2 = cx1 + hint_advance("Firmware Setup"@);
    let a = hint_ops(cx0, y, "A"@, "Boot"@, crate::theme::Bgra::from_rgb(0x5BA32B));
    let b = hint_ops(cx1, y, "B"@, "Firmware Setup"@, crate::theme::Bgra::from_rgb(0xC0392B));
    let c = hint_ops(cx2, y, "Y"@, "Set Default"@, crate::theme::Bgra::from_rgb(0xD4A017));
    assert(footer_ops(w, h) == a + b + c);
    assert(outside_all(a, cw, ch, col, row));
    assert(outside_all(b, cw, ch, col, row));
    assert(outside_all(c, cw, ch, col, row));
    lemma_outside_concat(a, b, cw, ch, col, row);
    lemma_outside_concat(a + b, c, cw, ch, col, row);
}

} // verus!
