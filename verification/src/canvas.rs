//! The picker's software framebuffer and its drawing primitives.
//!
//! Drawing happens in an owned back-buffer of pixels, which the app layer
//! pushes to the screen in one transfer per frame. Anti-aliased shapes are
//! drawn from coverage masks (one 0..=255 value per pixel of the shape's
//! box), so the primitives here are exact integer pixel operations.

use vstd::prelude::*;

use crate::theme::Bgra;

verus! {

/// One framebuffer pixel, in the GOP's channel order.
#[derive(Clone, Copy, PartialEq, Eq, Debug, Structural)]
pub struct Pixel {
    pub blue: u8,
    pub green: u8,
    pub red: u8,
}

/// The pixel for a colour.
pub open spec fn px(c: Bgra) -> Pixel {
    Pixel { blue: c.b, green: c.g, red: c.r }
}

/// One channel of `s` drawn over `d` with opacity `a / 255`.
pub open spec fn blend_channel(s: u8, d: u8, a: u8) -> int {
    (s * a + d * (255 - a)) / 255
}

/// Colour `c` drawn over pixel `d` with opacity `a / 255`.
pub open spec fn blend_px(d: Pixel, c: Bgra, a: u8) -> Pixel {
    Pixel {
        blue: blend_channel(c.b, d.blue, a) as u8,
        green: blend_channel(c.g, d.green, a) as u8,
        red: blend_channel(c.r, d.red, a) as u8,
    }
}

/// One channel of a premultiplied source `s` with alpha `a` over `d`:
/// `s + d * (1 - a)`, capped at 255.
pub open spec fn premul_channel(s: u8, d: u8, a: u8) -> int {
    let v = s + (d * (255 - a)) / 255;
    if v < 255 {
        v
    } else {
        255
    }
}

/// A premultiplied source pixel composited over `d`.
pub open spec fn premul_px(d: Pixel, b: u8, g: u8, r: u8, a: u8) -> Pixel {
    Pixel {
        blue: premul_channel(b, d.blue, a) as u8,
        green: premul_channel(g, d.green, a) as u8,
        red: premul_channel(r, d.red, a) as u8,
    }
}

/// The coverage a mask gives to its position `(mx, my)`: 0 outside it.
pub open spec fn cov_at(rows: Seq<Seq<u8>>, mx: int, my: int) -> u8 {
    if 0 <= my < rows.len() && 0 <= mx < rows[my].len() {
        rows[my][mx]
    } else {
        0
    }
}

/// A coverage mask's rows.
pub open spec fn mask_rows(m: &[&[u8]]) -> Seq<Seq<u8>> {
    slice_rows(m@)
}

/// The contents of a sequence of borrowed rows.
pub open spec fn slice_rows(m: Seq<&[u8]>) -> Seq<Seq<u8>> {
    m.map_values(|r: &[u8]| r@)
}

/// The pixels after colour `c` is drawn through a coverage mask whose
/// top-left corner is at `(x, y)`: each covered pixel is blended with the
/// coverage as opacity (full coverage paints `c` itself), the rest is kept.
pub open spec fn painted(old: Seq<Pixel>, w: int, x: int, y: int, rows: Seq<Seq<u8>>, c: Bgra) -> Seq<
    Pixel,
> {
    Seq::new(
        old.len(),
        |i: int|
            {
                let a = cov_at(rows, i % w - x, i / w - y);
                if a == 0 {
                    old[i]
                } else {
                    blend_px(old[i], c, a)
                }
            },
    )
}

spec fn done(mx: int, my: int, yy: int, xx: int) -> bool {
    my < yy || (my == yy && mx < xx)
}

spec fn painted_upto(
    old: Seq<Pixel>,
    w: int,
    x: int,
    y: int,
    rows: Seq<Seq<u8>>,
    c: Bgra,
    yy: int,
    xx: int,
) -> Seq<Pixel> {
    Seq::new(
        old.len(),
        |i: int|
            {
                let a = cov_at(rows, i % w - x, i / w - y);
                if a == 0 || !done(i % w - x, i / w - y, yy, xx) {
                    old[i]
                } else {
                    blend_px(old[i], c, a)
                }
            },
    )
}

/// The alpha of a premultiplied BGRA image at `(col, row)`.
pub open spec fn image_alpha(img: Seq<u8>, iw: int, col: int, row: int) -> u8 {
    img[(row * iw + col) * 4 + 3]
}

/// Whether `(col, row)` is an opaque-enough position of the image to draw.
pub open spec fn image_drawn(img: Seq<u8>, iw: int, ih: int, col: int, row: int) -> bool {
    0 <= col < iw && 0 <= row < ih && image_alpha(img, iw, col, row) != 0
}

/// The pixels after a premultiplied BGRA image of `iw × ih` is composited
/// with its top-left corner at `(x, y)`; fully transparent pixels are skipped.
pub open spec fn blitted(old: Seq<Pixel>, w: int, x: int, y: int, img: Seq<u8>, iw: int, ih: int) -> Seq<
    Pixel,
> {
    Seq::new(
        old.len(),
        |i: int|
            {
                let col = i % w - x;
                let row = i / w - y;
                if image_drawn(img, iw, ih, col, row) {
                    let k = (row * iw + col) * 4;
                    premul_px(old[i], img[k], img[k + 1], img[k + 2], img[k + 3])
                } else {
                    old[i]
                }
            },
    )
}

spec fn blitted_upto(
    old: Seq<Pixel>,
    w: int,
    x: int,
    y: int,
    img: Seq<u8>,
    iw: int,
    ih: int,
    row_done: int,
    col_done: int,
) -> Seq<Pixel> {
    Seq::new(
        old.len(),
        |i: int|
            {
                let col = i % w - x;
                let row = i / w - y;
                if image_drawn(img, iw, ih, col, row) && done(col, row, row_done, col_done) {
                    let k = (row * iw + col) * 4;
                    premul_px(old[i], img[k], img[k + 1], img[k + 2], img[k + 3])
                } else {
                    old[i]
                }
            },
    )
}

/// The row of the gradient's colour at row `y` of a canvas `h` rows tall.
pub open spec fn gradient_t(y: int, h: int) -> u8 {
    ((y * 255) / (if h > 1 {
        h
    } else {
        1
    })) as u8
}

/// Whether canvas position `(px_, py_)` lies in the rectangle.
pub open spec fn in_rect(px_: int, py_: int, x: int, y: int, w: int, h: int) -> bool {
    x <= px_ < x + w && y <= py_ < y + h
}

/// Integer division rounding toward zero, as Rust's `/` on signed integers.
pub open spec fn div_trunc(a: int, b: int) -> int {
    if a >= 0 {
        a / b
    } else {
        -((-a) / b)
    }
}

/// The corner radius a rounded rectangle of `w × h` is drawn with: `r`,
/// but at most half of either side, and never negative.
pub open spec fn clamped_radius(w: int, h: int, r: int) -> int {
    let a = if r < div_trunc(w, 2) {
        r
    } else {
        div_trunc(w, 2)
    };
    let b = if a < div_trunc(h, 2) {
        a
    } else {
        div_trunc(h, 2)
    };
    if b > 0 {
        b
    } else {
        0
    }
}

/// The radius used for a rounded rectangle of `w × h` asked to have corner
/// radius `r` (its coverage mask is drawn with this radius).
pub fn clamp_radius(w: i32, h: i32, r: i32) -> (out: i32)
    ensures
        out == clamped_radius(w as int, h as int, r as int),
        out >= 0,
{
    let hw = w / 2;
    let hh = h / 2;
    let a = if r < hw {
        r
    } else {
        hw
    };
    let b = if a < hh {
        a
    } else {
        hh
    };
    if b > 0 {
        b
    } else {
        0
    }
}

/// Where a pixel lies against a rounded rectangle's outline: outside the
/// box, solidly inside, or in one of the four corner squares at offset
/// `(dx, dy)` from that corner's arc centre (its coverage then depends on the
/// distance to the centre).
#[derive(Clone, Copy, PartialEq, Eq, Debug, Structural)]
pub enum Corner {
    Outside,
    Inside,
    Arc { dx: i32, dy: i32 },
}

/// The centre coordinate of the corner arc a position falls under along one
/// axis of length `n`, if it lies within `r` of either end.
pub open spec fn arc_centre(p: int, n: int, r: int) -> Option<int> {
    if p < r {
        Some(r)
    } else if p >= n - r {
        Some(n - 1 - r)
    } else {
        None
    }
}

/// Where `(xx, yy)` lies against a `w × h` rounded rectangle with corner
/// radius `r` (a non-positive radius makes a plain rectangle).
pub open spec fn corner_of(xx: int, yy: int, w: int, h: int, r: int) -> Corner {
    if xx < 0 || yy < 0 || xx >= w || yy >= h {
        Corner::Outside
    } else if r <= 0 {
        Corner::Inside
    } else {
        match (arc_centre(xx, w, r), arc_centre(yy, h, r)) {
            (Some(cx), Some(cy)) => Corner::Arc { dx: (xx - cx) as i32, dy: (yy - cy) as i32 },
            _ => Corner::Inside,
        }
    }
}

/// Classifies a position of a rounded rectangle for its coverage mask (see
/// [`corner_of`]).
pub fn corner_at(xx: i32, yy: i32, w: i32, h: i32, r: i32) -> (c: Corner)
    ensures
        c == corner_of(xx as int, yy as int, w as int, h as int, r as int),
        c matches Corner::Arc { dx, dy } ==> -r <= dx <= r && -r <= dy <= r,
{
    if xx < 0 || yy < 0 || xx >= w || yy >= h {
        return Corner::Outside;
    }
    if r <= 0 {
        return Corner::Inside;
    }
    let cx = if xx < r {
        r
    } else if xx >= w - r {
        w - 1 - r
    } else {
        return Corner::Inside;
    };
    let cy = if yy < r {
        r
    } else if yy >= h - r {
        h - 1 - r
    } else {
        return Corner::Inside;
    };
    Corner::Arc { dx: xx - cx, dy: yy - cy }
}

/// The coverage of a `w × h` rounded rectangle with corner radius `r`,
/// position by position: full where [`corner_of`] says solidly inside, the
/// anti-aliased value `edge` gives in the corner squares, none elsewhere.
pub open spec fn shape_rows(edge: Seq<Seq<u8>>, w: int, h: int, r: int) -> Seq<Seq<u8>> {
    Seq::new(
        (if h > 0 {
            h
        } else {
            0
        }) as nat,
        |yy: int|
            Seq::new(
                (if w > 0 {
                    w
                } else {
                    0
                }) as nat,
                |xx: int|
                    match corner_of(xx, yy, w, h, r) {
                        Corner::Outside => 0u8,
                        Corner::Inside => 255u8,
                        Corner::Arc { .. } => cov_at(edge, xx, yy),
                    },
            ),
    )
}

/// The inset radius of a border's inner outline.
pub open spec fn inset_radius(r: int, t: int) -> int {
    if r - t > 0 {
        r - t
    } else {
        0
    }
}

/// The coverage mask of a rounded rectangle (see [`shape_rows`]); `edge`
/// supplies the anti-aliased values of the corner squares.
pub fn shape_mask(edge: &[&[u8]], w: i32, h: i32, r: i32) -> (m: Vec<Vec<u8>>)
    ensures
        owned_rows(m@) == shape_rows(mask_rows(edge), w as int, h as int, r as int),
{
    let ghost e = mask_rows(edge);
    let ghost target = shape_rows(e, w as int, h as int, r as int);
    let mut m: Vec<Vec<u8>> = Vec::new();
    let mut yy: i32 = 0;
    while yy < h
        invariant
            0 <= yy,
            yy <= h || h <= 0,
            h <= 0 ==> yy == 0,
            e == mask_rows(edge),
            target == shape_rows(e, w as int, h as int, r as int),
            m@.len() == yy,
            forall|k: int| 0 <= k < yy ==> (#[trigger] m@[k])@ == target[k],
        decreases h - yy,
    {
        let mut line: Vec<u8> = Vec::new();
        let mut xx: i32 = 0;
        while xx < w
            invariant
                0 <= yy < h,
                0 <= xx,
                xx <= w || w <= 0,
                w <= 0 ==> xx == 0,
                e == mask_rows(edge),
                target == shape_rows(e, w as int, h as int, r as int),
                line@.len() == xx,
                forall|k: int| 0 <= k < xx ==> line@[k] == target[yy as int][k],
            decreases w - xx,
        {
            let v: u8 = match corner_at(xx, yy, w, h, r) {
                Corner::Outside => 0,
                Corner::Inside => 255,
                Corner::Arc { .. } => {
                    let mut c: u8 = 0;
                    if (yy as usize) < edge.len() {
                        let row: &[u8] = edge[yy as usize];
                        if (xx as usize) < row.len() {
                            c = row[xx as usize];
                        }
                    }
                    assert(c == cov_at(e, xx as int, yy as int));
                    c
                },
            };
            line.push(v);
            xx = xx + 1;
        }
        proof {
            assert(line@ =~= target[yy as int]);
        }
        m.push(line);
        yy = yy + 1;
    }
    proof {
        assert(owned_rows(m@) =~= target);
    }
    m
}

/// A shape's mask has exactly its box's rows and columns.
pub proof fn lemma_shape_within(edge: Seq<Seq<u8>>, w: int, h: int, r: int)
    ensures
        mask_within(
            shape_rows(edge, w, h, r),
            if w > 0 {
                w
            } else {
                0
            },
            if h > 0 {
                h
            } else {
                0
            },
        ),
{
}

/// A border pixel's coverage: the outer shape's coverage minus the inner
/// shape's, never below zero.
pub open spec fn border_cov(outer: u8, inner: u8) -> u8 {
    if outer <= inner {
        0
    } else {
        (outer - inner) as u8
    }
}

/// The coverage of a border of thickness `t`: each position of the outer
/// mask loses the coverage the inner mask (inset by `t` on both axes) gives it.
pub open spec fn border_rows(outer: Seq<Seq<u8>>, inner: Seq<Seq<u8>>, t: int) -> Seq<Seq<u8>> {
    Seq::new(
        outer.len(),
        |yy: int|
            Seq::new(
                outer[yy].len(),
                |xx: int| border_cov(outer[yy][xx], cov_at(inner, xx - t, yy - t)),
            ),
    )
}

/// The rows of an owned mask.
pub open spec fn owned_rows(m: Seq<Vec<u8>>) -> Seq<Seq<u8>> {
    m.map_values(|r: Vec<u8>| r@)
}

/// Width and height of a display mode.
pub open spec fn mode_area(m: (usize, usize)) -> int {
    m.0 * m.1
}

/// Whether a display mode is the Deck's native 1280×800 panel.
pub open spec fn is_native(m: (usize, usize)) -> bool {
    m.0 == 1280 && m.1 == 800
}

/// The mode a list of display modes leads to: the first native one if any;
/// otherwise the first of the largest area; none for an empty list.
pub open spec fn chosen_mode(modes: Seq<(usize, usize)>, i: int) -> bool {
    &&& 0 <= i < modes.len()
    &&& if exists|j: int| 0 <= j < modes.len() && is_native(#[trigger] modes[j]) {
        &&& is_native(modes[i])
        &&& forall|j: int| 0 <= j < i ==> !is_native(#[trigger] modes[j])
    } else {
        &&& forall|j: int| 0 <= j < modes.len() ==> mode_area(#[trigger] modes[j]) <= mode_area(modes[i])
        &&& forall|j: int| 0 <= j < i ==> mode_area(#[trigger] modes[j]) < mode_area(modes[i])
    }
}

/// Picks the display mode to switch to: the native 1280×800 if offered,
/// otherwise the first mode of the largest area.
pub fn choose_mode(modes: &[(usize, usize)]) -> (best: Option<usize>)
    requires
        forall|j: int| 0 <= j < modes@.len() ==> mode_area(#[trigger] modes@[j]) <= usize::MAX,
    ensures
        best is None <==> modes@.len() == 0,
        best matches Some(i) ==> chosen_mode(modes@, i as int),
{
    let mut best: Option<usize> = None;
    let mut best_area: usize = 0;
    let mut i: usize = 0;
    while i < modes.len()
        invariant
            i <= modes@.len(),
            forall|j: int| 0 <= j < modes@.len() ==> mode_area(#[trigger] modes@[j]) <= usize::MAX,
            forall|j: int| 0 <= j < i ==> !is_native(#[trigger] modes@[j]),
            best is None <==> i == 0,
            best matches Some(b) ==> {
                &&& b < i
                &&& best_area == mode_area(modes@[b as int])
                &&& forall|j: int| 0 <= j < i ==> mode_area(#[trigger] modes@[j]) <= best_area
                &&& forall|j: int| 0 <= j < b ==> mode_area(#[trigger] modes@[j]) < best_area
            },
        decreases modes@.len() - i,
    {
        let (w, h) = modes[i];
        if w == 1280 && h == 800 {
            proof {
                assert(is_native(modes@[i as int]));
            }
            return Some(i);
        }
        let area = w * h;
        let better = match best {
            None => true,
            Some(_) => area > best_area,
        };
        if better {
            best = Some(i);
            best_area = area;
        }
        i = i + 1;
    }
    proof {
        if modes@.len() > 0 {
            assert(!exists|j: int| 0 <= j < modes@.len() && is_native(#[trigger] modes@[j]));
        }
    }
    best
}

/// Whether a mask has at most `bh` rows of at most `bw` entries each.
pub open spec fn mask_within(rows: Seq<Seq<u8>>, bw: int, bh: int) -> bool {
    &&& rows.len() <= bh
    &&& forall|k: int| 0 <= k < rows.len() ==> (#[trigger] rows[k]).len() <= bw
}

/// Drawing through a mask of at most `bw × bh` placed at `(x, y)` leaves
/// every pixel outside that box as it was.
pub proof fn lemma_painted_outside(
    old: Seq<Pixel>,
    w: int,
    x: int,
    y: int,
    rows: Seq<Seq<u8>>,
    c: Bgra,
    bw: int,
    bh: int,
)
    requires
        mask_within(rows, bw, bh),
    ensures
        forall|i: int|
            0 <= i < old.len() && !in_rect(i % w, i / w, x, y, bw, bh) ==> #[trigger] painted(
                old,
                w,
                x,
                y,
                rows,
                c,
            )[i] == old[i],
{
    assert forall|i: int| 0 <= i < old.len() && !in_rect(i % w, i / w, x, y, bw, bh) implies #[trigger] painted(
        old,
        w,
        x,
        y,
        rows,
        c,
    )[i] == old[i] by {
        let mx = i % w - x;
        let my = i / w - y;
        if cov_at(rows, mx, my) != 0 {
            assert(0 <= my < rows.len() && 0 <= mx < rows[my].len());
        }
    }
}

/// Compositing an image of `iw × ih` at `(x, y)` leaves every pixel outside
/// that box as it was.
pub proof fn lemma_blitted_outside(old: Seq<Pixel>, w: int, x: int, y: int, img: Seq<u8>, iw: int, ih: int)
    ensures
        forall|i: int|
            0 <= i < old.len() && !in_rect(i % w, i / w, x, y, iw, ih) ==> #[trigger] blitted(
                old,
                w,
                x,
                y,
                img,
                iw,
                ih,
            )[i] == old[i],
{
}

/// A pixel index of a `w × h` canvas has its column and row on the canvas.
pub proof fn lemma_coords(i: int, w: int, h: int)
    requires
        0 <= i < w * h,
        0 <= w,
        0 <= h,
    ensures
        0 <= i % w < w,
        0 <= i / w < h,
        i == (i / w) * w + i % w,
{
    assert(w > 0) by (nonlinear_arith)
        requires
            0 <= i < w * h,
            0 <= w,
            0 <= h,
    ;
    vstd::arithmetic::div_mod::lemma_fundamental_div_mod(i, w);
    vstd::arithmetic::div_mod::lemma_mod_bound(i, w);
    let q = i / w;
    assert(q * w == w * q) by (nonlinear_arith);
    if q < 0 {
        assert(w * q <= -w) by (nonlinear_arith)
            requires
                q < 0,
                w > 0,
        ;
    }
    if q >= h {
        assert(w * q >= w * h) by (nonlinear_arith)
            requires
                q >= h,
                w > 0,
        ;
    }
}

proof fn lemma_index(x: int, y: int, w: int, h: int)
    requires
        0 <= x < w,
        0 <= y < h,
    ensures
        0 <= y * w + x < w * h,
        (y * w + x) % w == x,
        (y * w + x) / w == y,
{
    assert(y * w + x < w * h) by (nonlinear_arith)
        requires
            0 <= x < w,
            0 <= y < h,
    ;
    assert(0 <= y * w) by (nonlinear_arith)
        requires
            0 <= y,
            0 <= w,
    ;
    vstd::arithmetic::div_mod::lemma_fundamental_div_mod_converse(y * w + x, w, y, x);
}

/// Full coverage paints the colour itself.
proof fn lemma_blend_full(d: Pixel, c: Bgra)
    ensures
        blend_px(d, c, 255) == px(c),
{
}

fn blend_u8(s: u8, d: u8, a: u8) -> (m: u8)
    ensures
        m == blend_channel(s, d, a),
{
    let s16 = s as u16;
    let d16 = d as u16;
    let a16 = a as u16;
    assert(s16 * a16 + d16 * (255 - a16) <= 255 * 255) by (nonlinear_arith)
        requires
            s16 <= 255,
            d16 <= 255,
            a16 <= 255,
    ;
    ((s16 * a16 + d16 * (255 - a16)) / 255) as u8
}

fn premul_u8(s: u8, d: u8, a: u8) -> (m: u8)
    ensures
        m == premul_channel(s, d, a),
{
    let inv: u16 = 255 - a as u16;
    assert((d as u16) * inv <= 255 * 255) by (nonlinear_arith)
        requires
            d <= 255,
            inv <= 255,
    ;
    let v: u16 = s as u16 + (d as u16 * inv) / 255;
    if v < 255 {
        v as u8
    } else {
        255
    }
}

/// The framebuffer's back-buffer.
pub struct Canvas {
    pub w: usize,
    pub h: usize,
    buf: Vec<Pixel>,
}

impl Canvas {
    /// The pixels, row by row.
    pub closed spec fn pixels(&self) -> Seq<Pixel> {
        self.buf@
    }

    /// A canvas holds exactly `w × h` pixels, and both sides fit an `i32`
    /// (drawing coordinates are `i32`).
    pub closed spec fn wf(&self) -> bool {
        &&& self.pixels().len() == self.w * self.h
        &&& self.w * self.h <= usize::MAX
        &&& self.w <= i32::MAX
        &&& self.h <= i32::MAX
    }

    /// What well-formedness says of the sides and the pixel count.
    pub proof fn lemma_wf(&self)
        requires
            self.wf(),
        ensures
            self.pixels().len() == self.width() * self.height(),
            self.width() * self.height() <= usize::MAX,
            self.width() <= i32::MAX,
            self.height() <= i32::MAX,
    {
    }

    /// The canvas width in pixels.
    pub closed spec fn width(&self) -> usize {
        self.w
    }

    /// The canvas height in pixels.
    pub closed spec fn height(&self) -> usize {
        self.h
    }

    /// A black canvas of `w × h` pixels.
    pub fn new(w: usize, h: usize) -> (c: Canvas)
        requires
            w * h <= usize::MAX,
            w <= i32::MAX,
            h <= i32::MAX,
        ensures
            c.wf(),
            c.width() == w,
            c.height() == h,
            c.pixels() == Seq::new((w * h) as nat, |i: int| Pixel { blue: 0, green: 0, red: 0 }),
    {
        let n = w * h;
        let mut buf: Vec<Pixel> = Vec::new();
        let mut i: usize = 0;
        while i < n
            invariant
                i <= n,
                buf@ == Seq::new(i as nat, |k: int| Pixel { blue: 0, green: 0, red: 0 }),
            decreases n - i,
        {
            buf.push(Pixel { blue: 0, green: 0, red: 0 });
            i = i + 1;
            assert(buf@ =~= Seq::new(i as nat, |k: int| Pixel { blue: 0, green: 0, red: 0 }));
        }
        Canvas { w, h, buf }
    }

    /// The pixels, for presenting them.
    pub fn buffer(&self) -> (b: &Vec<Pixel>)
        ensures
            b@ == self.pixels(),
    {
        &self.buf
    }

    /// Sets one pixel; positions off the canvas are ignored.
    pub fn put(&mut self, x: usize, y: usize, c: Bgra)
        requires
            old(self).wf(),
        ensures
            final(self).wf(),
            final(self).width() == old(self).width(),
            final(self).height() == old(self).height(),
            final(self).pixels() == (if x < old(self).width() && y < old(self).height() {
                old(self).pixels().update(y * old(self).width() + x, px(c))
            } else {
                old(self).pixels()
            }),
    {
        if x < self.w && y < self.h {
            proof {
                lemma_index(x as int, y as int, self.w as int, self.h as int);
            }
            let i = y * self.w + x;
            self.buf.set(i, Pixel { blue: c.b, green: c.g, red: c.r });
        }
    }

    /// Blends `c` over one pixel with opacity `a / 255`; positions off the
    /// canvas are ignored.
    pub fn blend(&mut self, x: usize, y: usize, c: Bgra, a: u8)
        requires
            old(self).wf(),
        ensures
            final(self).wf(),
            final(self).width() == old(self).width(),
            final(self).height() == old(self).height(),
            final(self).pixels() == (if x < old(self).width() && y < old(self).height() {
                old(self).pixels().update(
                    y * old(self).width() + x,
                    blend_px(old(self).pixels()[y * old(self).width() + x], c, a),
                )
            } else {
                old(self).pixels()
            }),
    {
        if x >= self.w || y >= self.h {
            return;
        }
        proof {
            lemma_index(x as int, y as int, self.w as int, self.h as int);
        }
        let i = y * self.w + x;
        let dst = self.buf[i];
        let p = Pixel {
            blue: blend_u8(c.b, dst.blue, a),
            green: blend_u8(c.g, dst.green, a),
            red: blend_u8(c.r, dst.red, a),
        };
        self.buf.set(i, p);
    }

    /// Composites a premultiplied source pixel: `dst = src + dst * (1 - a)`.
    fn over_premul(&mut self, x: usize, y: usize, b: u8, g: u8, r: u8, a: u8)
        requires
            old(self).wf(),
        ensures
            final(self).wf(),
            final(self).width() == old(self).width(),
            final(self).height() == old(self).height(),
            final(self).pixels() == (if x < old(self).width() && y < old(self).height() {
                old(self).pixels().update(
                    y * old(self).width() + x,
                    premul_px(old(self).pixels()[y * old(self).width() + x], b, g, r, a),
                )
            } else {
                old(self).pixels()
            }),
    {
        if x >= self.w || y >= self.h {
            return;
        }
        proof {
            lemma_index(x as int, y as int, self.w as int, self.h as int);
        }
        let i = y * self.w + x;
        let dst = self.buf[i];
        let p = Pixel {
            blue: premul_u8(b, dst.blue, a),
            green: premul_u8(g, dst.green, a),
            red: premul_u8(r, dst.red, a),
        };
        self.buf.set(i, p);
    }

    /// Fills the whole canvas with `c`.
    pub fn clear(&mut self, c: Bgra)
        requires
            old(self).wf(),
        ensures
            final(self).wf(),
            final(self).width() == old(self).width(),
            final(self).height() == old(self).height(),
            final(self).pixels() == Seq::new(old(self).pixels().len(), |i: int| px(c)),
    {
        let p = Pixel { blue: c.b, green: c.g, red: c.r };
        let n = self.buf.len();
        let mut i: usize = 0;
        while i < n
            invariant
                i <= n,
                n == self.buf@.len(),
                self.wf(),
                self.w == old(self).width(),
                self.h == old(self).height(),
                p == px(c),
                forall|k: int| 0 <= k < i ==> self.buf@[k] == px(c),
            decreases n - i,
        {
            self.buf.set(i, p);
            assert(self.buf@[i as int] == px(c));
            i = i + 1;
        }
        assert(self.pixels() =~= Seq::new(old(self).pixels().len(), |i: int| px(c)));
    }

    /// Vertical gradient over the whole canvas (the body backdrop): row `y`
    /// gets the colour `y * 255 / h` of the way from `top` to `bottom`.
    pub fn gradient_v(&mut self, top: Bgra, bottom: Bgra)
        requires
            old(self).wf(),
            old(self).height() * 255 <= usize::MAX,
        ensures
            final(self).wf(),
            final(self).width() == old(self).width(),
            final(self).height() == old(self).height(),
            final(self).pixels() == Seq::new(
                old(self).pixels().len(),
                |i: int| px(top.mixed(bottom, gradient_t(i / old(self).width() as int, old(self).height() as int))),
            ),
    {
        let w = self.w;
        let h = self.h;
        let ghost target = Seq::new(
            self.pixels().len(),
            |i: int| px(top.mixed(bottom, gradient_t(i / w as int, h as int))),
        );
        let hmax = if h > 1 {
            h
        } else {
            1
        };
        let mut y: usize = 0;
        while y < h
            invariant
                y <= h,
                w == self.w,
                h == self.h,
                self.wf(),
                h * 255 <= usize::MAX,
                hmax == (if h > 1 {
                    h
                } else {
                    1
                }),
                target.len() == w * h,
                target == Seq::new(
                    (w * h) as nat,
                    |i: int| px(top.mixed(bottom, gradient_t(i / w as int, h as int))),
                ),
                forall|k: int| 0 <= k < y * w ==> self.buf@[k] == target[k],
            decreases h - y,
        {
            assert(y * 255 <= h * 255) by (nonlinear_arith)
                requires
                    y <= h,
            ;
            assert((y * 255) / (hmax as int) < 256) by (nonlinear_arith)
                requires
                    y < h,
                    hmax >= h,
                    hmax >= 1,
            ;
            let t = ((y * 255) / hmax) as u8;
            let col = top.lerp(bottom, t);
            let p = Pixel { blue: col.b, green: col.g, red: col.r };
            proof {
                assert((y + 1) * w <= w * h && y * w <= (y + 1) * w) by (nonlinear_arith)
                    requires
                        y < h,
                ;
            }
            let row = y * w;
            let mut x: usize = 0;
            while x < w
                invariant
                    x <= w,
                    w == self.w,
                    h == self.h,
                    self.wf(),
                    y < h,
                    row == y * w,
                    (y + 1) * w <= w * h,
                    target.len() == w * h,
                    target == Seq::new(
                        (w * h) as nat,
                        |i: int| px(top.mixed(bottom, gradient_t(i / w as int, h as int))),
                    ),
                    p == px(top.mixed(bottom, gradient_t(y as int, h as int))),
                    forall|k: int| 0 <= k < row + x ==> self.buf@[k] == target[k],
                decreases w - x,
            {
                proof {
                    lemma_index(x as int, y as int, w as int, h as int);
                }
                self.buf.set(row + x, p);
                x = x + 1;
            }
            y = y + 1;
            assert(row + w == y * w) by (nonlinear_arith)
                requires
                    row == (y - 1) * w,
            ;
        }
        assert(y * w == w * h) by (nonlinear_arith)
            requires
                y == h,
        ;
        assert(self.pixels() =~= target);
    }

    /// Fills the part of a rectangle that lies on the canvas.
    pub fn fill_rect(&mut self, x: i32, y: i32, w: i32, h: i32, c: Bgra)
        requires
            old(self).wf(),
            i32::MIN <= x + w <= i32::MAX,
            i32::MIN <= y + h <= i32::MAX,
        ensures
            final(self).wf(),
            final(self).width() == old(self).width(),
            final(self).height() == old(self).height(),
            final(self).pixels() == Seq::new(
                old(self).pixels().len(),
                |i: int|
                    if in_rect(
                        i % old(self).width() as int,
                        i / old(self).width() as int,
                        x as int,
                        y as int,
                        w as int,
                        h as int,
                    ) {
                        px(c)
                    } else {
                        old(self).pixels()[i]
                    },
            ),
    {
        let cw = self.w;
        let ch = self.h;
        let ghost old_px = self.pixels();
        let ghost target = Seq::new(
            old_px.len(),
            |i: int|
                if in_rect(i % (cw as int), i / (cw as int), x as int, y as int, w as int, h as int) {
                    px(c)
                } else {
                    old_px[i]
                },
        );
        let y0: i32 = if y > 0 {
            y
        } else {
            0
        };
        let y1: i32 = if y + h < ch as i32 {
            y + h
        } else {
            ch as i32
        };
        let x0: i32 = if x > 0 {
            x
        } else {
            0
        };
        let x1: i32 = if x + w < cw as i32 {
            x + w
        } else {
            cw as i32
        };
        proof {
            assert forall|i: int| 0 <= i < old_px.len() && i / (cw as int) < y0 implies target[i]
                == old_px[i] by {
                lemma_coords(i, cw as int, ch as int);
            }
        }
        let mut yy = y0;
        while yy < y1
            invariant
                self.wf(),
                self.w == cw,
                self.h == ch,
                0 <= y0 <= yy,
                y0 as int == (if y > 0 {
                    y as int
                } else {
                    0
                }),
                y1 as int == (if y + h < ch as int {
                    y + h
                } else {
                    ch as int
                }),
                0 <= x0,
                x0 as int == (if x > 0 {
                    x as int
                } else {
                    0
                }),
                x1 as int == (if x + w < cw as int {
                    x + w
                } else {
                    cw as int
                }),
                old_px.len() == cw * ch,
                target.len() == old_px.len(),
                target == Seq::new(
                    old_px.len(),
                    |i: int|
                        if in_rect(
                            i % (cw as int),
                            i / (cw as int),
                            x as int,
                            y as int,
                            w as int,
                            h as int,
                        ) {
                            px(c)
                        } else {
                            old_px[i]
                        },
                ),
                forall|i: int|
                    0 <= i < old_px.len() ==> (#[trigger] self.pixels()[i]) == (if i / (cw as int)
                        < yy {
                        target[i]
                    } else {
                        old_px[i]
                    }),
            decreases y1 - yy,
        {
            let mut xx = x0;
            let ghost row_start = self.pixels();
            while xx < x1
                invariant
                    self.wf(),
                    self.w == cw,
                    self.h == ch,
                    0 <= yy < y1,
                    y1 <= ch,
                    0 <= x0 <= xx,
                    xx == x0 || xx <= x1,
                    x1 <= cw,
                    old_px.len() == cw * ch,
                    row_start.len() == old_px.len(),
                    forall|i: int|
                        0 <= i < old_px.len() ==> (#[trigger] row_start[i]) == (if i / (cw as int)
                            < yy {
                            target[i]
                        } else {
                            old_px[i]
                        }),
                    forall|i: int|
                        0 <= i < old_px.len() ==> (#[trigger] self.pixels()[i]) == (if i / (cw as int)
                            == yy && x0 <= i % (cw as int) < xx {
                            px(c)
                        } else {
                            row_start[i]
                        }),
                decreases x1 - xx,
            {
                self.put(xx as usize, yy as usize, c);
                proof {
                    lemma_index(xx as int, yy as int, cw as int, ch as int);
                    let t = yy * cw + xx;
                    assert forall|i: int| 0 <= i < old_px.len() implies (#[trigger] self.pixels()[i])
                        == (if i / (cw as int) == yy && x0 <= i % (cw as int) < xx + 1 {
                        px(c)
                    } else {
                        row_start[i]
                    }) by {
                        lemma_coords(i, cw as int, ch as int);
                        if i != t {
                            assert(!(i / (cw as int) == yy && i % (cw as int) == xx));
                        }
                    }
                }
                xx = xx + 1;
            }
            proof {
                assert forall|i: int| 0 <= i < old_px.len() implies (#[trigger] self.pixels()[i])
                    == (if i / (cw as int) < yy + 1 {
                    target[i]
                } else {
                    old_px[i]
                }) by {
                    lemma_coords(i, cw as int, ch as int);
                }
            }
            yy = yy + 1;
        }
        proof {
            assert forall|i: int| 0 <= i < old_px.len() implies (#[trigger] self.pixels()[i])
                == target[i] by {
                lemma_coords(i, cw as int, ch as int);
            }
            assert(self.pixels() =~= target);
        }
    }

    /// Draws `c` through a coverage mask whose top-left corner is at `(x, y)`:
    /// full coverage paints the colour, partial coverage blends it in, and
    /// positions off the canvas are skipped.
    pub fn paint(&mut self, x: i32, y: i32, mask: &[&[u8]], c: Bgra)
        requires
            old(self).wf(),
        ensures
            final(self).wf(),
            final(self).width() == old(self).width(),
            final(self).height() == old(self).height(),
            final(self).pixels() == painted(
                old(self).pixels(),
                old(self).width() as int,
                x as int,
                y as int,
                mask_rows(mask),
                c,
            ),
    {
        let cw = self.w;
        let ch = self.h;
        let ghost old_px = self.pixels();
        let ghost rows = mask_rows(mask);
        let mut yy: usize = 0;
        while yy < mask.len()
            invariant
                self.wf(),
                self.w == cw,
                self.h == ch,
                yy <= mask@.len(),
                old_px.len() == cw * ch,
                rows == mask_rows(mask),
                self.pixels() == painted_upto(old_px, cw as int, x as int, y as int, rows, c, yy as int, 0),
            decreases mask@.len() - yy,
        {
            let row: &[u8] = mask[yy];
            let mut xx: usize = 0;
            while xx < row.len()
                invariant
                    self.wf(),
                    self.w == cw,
                    self.h == ch,
                    yy < mask@.len(),
                    xx <= row@.len(),
                    row == mask@[yy as int],
                    old_px.len() == cw * ch,
                    rows == mask_rows(mask),
                    self.pixels() == painted_upto(
                        old_px,
                        cw as int,
                        x as int,
                        y as int,
                        rows,
                        c,
                        yy as int,
                        xx as int,
                    ),
                decreases row@.len() - xx,
            {
                let a = row[xx];
                let ghost before = self.pixels();
                let px_: i128 = x as i128 + xx as i128;
                let py_: i128 = y as i128 + yy as i128;
                assert(a == cov_at(rows, xx as int, yy as int));
                if a != 0 && px_ >= 0 && py_ >= 0 && px_ < cw as i128 && py_ < ch as i128 {
                    if a >= 255 {
                        self.put(px_ as usize, py_ as usize, c);
                        proof {
                            lemma_blend_full(before[py_ * cw + px_], c);
                        }
                    } else {
                        self.blend(px_ as usize, py_ as usize, c, a);
                    }
                }
                proof {
                    let next = painted_upto(
                        old_px,
                        cw as int,
                        x as int,
                        y as int,
                        rows,
                        c,
                        yy as int,
                        xx + 1,
                    );
                    assert forall|i: int| 0 <= i < old_px.len() implies self.pixels()[i]
                        == next[i] by {
                        lemma_coords(i, cw as int, ch as int);
                        let mx = i % (cw as int) - x;
                        let my = i / (cw as int) - y;
                        if mx == xx && my == yy {
                            lemma_index(px_ as int, py_ as int, cw as int, ch as int);
                        } else if 0 <= px_ < cw && 0 <= py_ < ch {
                            lemma_index(px_ as int, py_ as int, cw as int, ch as int);
                            assert(i != py_ * cw + px_);
                        }
                    }
                    assert(self.pixels() =~= next);
                }
                xx = xx + 1;
            }
            proof {
                let next = painted_upto(old_px, cw as int, x as int, y as int, rows, c, yy + 1, 0);
                let cur = painted_upto(
                    old_px,
                    cw as int,
                    x as int,
                    y as int,
                    rows,
                    c,
                    yy as int,
                    row@.len() as int,
                );
                assert forall|i: int| 0 <= i < old_px.len() implies cur[i] == next[i] by {
                    let mx = i % (cw as int) - x;
                    let my = i / (cw as int) - y;
                    if my == yy && mx >= row@.len() {
                        assert(cov_at(rows, mx, my) == 0);
                    }
                }
                assert(cur =~= next);
            }
            yy = yy + 1;
        }
        proof {
            let fin = painted(old_px, cw as int, x as int, y as int, rows, c);
            let cur = painted_upto(old_px, cw as int, x as int, y as int, rows, c, yy as int, 0);
            assert forall|i: int| 0 <= i < old_px.len() implies cur[i] == fin[i] by {
                let mx = i % (cw as int) - x;
                let my = i / (cw as int) - y;
                if my >= rows.len() {
                    assert(cov_at(rows, mx, my) == 0);
                }
            }
            assert(cur =~= fin);
        }
    }

    /// Fills a `w × h` rounded rectangle with its top-left corner at `(x, y)`
    /// and corner radius `r` (at most half of either side, never negative):
    /// the solid part is painted `c`, the corner squares are blended through
    /// the anti-aliased coverage `edge` gives them, and nothing outside the
    /// box changes.
    pub fn round_rect(&mut self, x: i32, y: i32, w: i32, h: i32, r: i32, edge: &[&[u8]], c: Bgra)
        requires
            old(self).wf(),
        ensures
            final(self).wf(),
            final(self).width() == old(self).width(),
            final(self).height() == old(self).height(),
            final(self).pixels() == painted(
                old(self).pixels(),
                old(self).width() as int,
                x as int,
                y as int,
                shape_rows(mask_rows(edge), w as int, h as int, clamped_radius(w as int, h as int, r as int)),
                c,
            ),
            forall|i: int|
                0 <= i < old(self).pixels().len() && !in_rect(
                    i % old(self).width() as int,
                    i / old(self).width() as int,
                    x as int,
                    y as int,
                    w as int,
                    h as int,
                ) ==> #[trigger] final(self).pixels()[i] == old(self).pixels()[i],
            forall|i: int|
                0 <= i < old(self).pixels().len() && in_rect(
                    i % old(self).width() as int,
                    i / old(self).width() as int,
                    x as int,
                    y as int,
                    w as int,
                    h as int,
                ) && corner_of(
                    i % old(self).width() as int - x,
                    i / old(self).width() as int - y,
                    w as int,
                    h as int,
                    clamped_radius(w as int, h as int, r as int),
                ) == Corner::Inside ==> #[trigger] final(self).pixels()[i] == px(c),
    {
        let rr = clamp_radius(w, h, r);
        let m = shape_mask(edge, w, h, rr);
        let rows = borrow_rows(&m);
        let ghost old_px = self.pixels();
        let ghost cw = self.width() as int;
        let ghost sr = shape_rows(mask_rows(edge), w as int, h as int, rr as int);
        proof {
            assert(slice_rows(rows@) =~= sr);
        }
        self.paint(x, y, rows.as_slice(), c);
        proof {
            lemma_shape_within(mask_rows(edge), w as int, h as int, rr as int);
            lemma_painted_outside(
                old_px,
                cw,
                x as int,
                y as int,
                sr,
                c,
                if w > 0 { w as int } else { 0 },
                if h > 0 { h as int } else { 0 },
            );
            assert forall|i: int|
                0 <= i < old_px.len() && in_rect(i % cw, i / cw, x as int, y as int, w as int, h as int)
                    && corner_of(i % cw - x, i / cw - y, w as int, h as int, rr as int) == Corner::Inside
                    implies #[trigger] self.pixels()[i] == px(c) by {
                let xx = i % cw - x;
                let yy = i / cw - y;
                assert(sr[yy][xx] == 255u8);
                assert(cov_at(sr, xx, yy) == 255u8);
                lemma_blend_full(old_px[i], c);
            }
        }
    }

    /// Draws a rounded border of thickness `t` around a `w × h` box with
    /// corner radius `r`: the outer outline's coverage minus that of the
    /// outline inset by `t` (radius `r - t`, at least 0). `outer_edge` and
    /// `inner_edge` give the anti-aliased values of the two outlines' corner
    /// squares. Nothing outside the box changes, and for `t, r >= 0` nothing
    /// inside the ring changes either.
    pub fn round_border(
        &mut self,
        x: i32,
        y: i32,
        w: i32,
        h: i32,
        r: i32,
        t: i32,
        outer_edge: &[&[u8]],
        inner_edge: &[&[u8]],
        c: Bgra,
    )
        requires
            old(self).wf(),
            i32::MIN <= 2 * t <= i32::MAX,
            i32::MIN <= w - 2 * t <= i32::MAX,
            i32::MIN <= h - 2 * t <= i32::MAX,
            i32::MIN <= r - t <= i32::MAX,
        ensures
            final(self).wf(),
            final(self).width() == old(self).width(),
            final(self).height() == old(self).height(),
            final(self).pixels() == painted(
                old(self).pixels(),
                old(self).width() as int,
                x as int,
                y as int,
                border_rows(
                    shape_rows(mask_rows(outer_edge), w as int, h as int, r as int),
                    shape_rows(mask_rows(inner_edge), w - 2 * t, h - 2 * t, inset_radius(r as int, t as int)),
                    t as int,
                ),
                c,
            ),
            forall|i: int|
                0 <= i < old(self).pixels().len() && !in_rect(
                    i % old(self).width() as int,
                    i / old(self).width() as int,
                    x as int,
                    y as int,
                    w as int,
                    h as int,
                ) ==> #[trigger] final(self).pixels()[i] == old(self).pixels()[i],
            t >= 0 && r >= 0 ==> forall|i: int|
                0 <= i < old(self).pixels().len() && in_rect(
                    i % old(self).width() as int,
                    i / old(self).width() as int,
                    x + t,
                    y + (if r > t { r } else { t }),
                    w - 2 * t,
                    h - 2 * (if r > t { r } else { t }),
                ) ==> #[trigger] final(self).pixels()[i] == old(self).pixels()[i],
    {
        let mo = shape_mask(outer_edge, w, h, r);
        let ri = if r - t > 0 {
            r - t
        } else {
            0
        };
        let mi = shape_mask(inner_edge, w - 2 * t, h - 2 * t, ri);
        let ro = borrow_rows(&mo);
        let rn = borrow_rows(&mi);
        let m = border_mask(ro.as_slice(), rn.as_slice(), t);
        let rows = borrow_rows(&m);
        let ghost old_px = self.pixels();
        let ghost cw = self.width() as int;
        let ghost so = shape_rows(mask_rows(outer_edge), w as int, h as int, r as int);
        let ghost si = shape_rows(mask_rows(inner_edge), w - 2 * t, h - 2 * t, ri as int);
        let ghost b = border_rows(so, si, t as int);
        proof {
            assert(slice_rows(ro@) =~= so);
            assert(slice_rows(rn@) =~= si);
            assert(slice_rows(rows@) =~= b);
        }
        self.paint(x, y, rows.as_slice(), c);
        proof {
            lemma_shape_within(mask_rows(outer_edge), w as int, h as int, r as int);
            assert(mask_within(b, if w > 0 { w as int } else { 0 }, if h > 0 { h as int } else { 0 }));
            lemma_painted_outside(
                old_px,
                cw,
                x as int,
                y as int,
                b,
                c,
                if w > 0 { w as int } else { 0 },
                if h > 0 { h as int } else { 0 },
            );
            if t >= 0 && r >= 0 {
                let m_ = if r > t { r as int } else { t as int };
                assert forall|i: int|
                    0 <= i < old_px.len() && in_rect(i % cw, i / cw, x + t, y + m_, w - 2 * t, h - 2 * m_)
                        implies #[trigger] self.pixels()[i] == old_px[i] by {
                    let xx = i % cw - x;
                    let yy = i / cw - y;
                    assert(corner_of(xx - t, yy - t, w - 2 * t, h - 2 * t, ri as int) == Corner::Inside);
                    assert(si[yy - t][xx - t] == 255u8);
                    assert(cov_at(si, xx - t, yy - t) == 255u8);
                    assert(b[yy][xx] == 0u8);
                    assert(cov_at(b, xx, yy) == 0u8);
                }
            }
        }
    }

    /// Fills an anti-aliased circle of radius `r` centred at `(cx, cy)`: the
    /// rounded rectangle of `2r × 2r` with radius `r` whose box has its
    /// top-left corner at `(cx - r, cy - r)` (its solid part painted `c`).
    pub fn fill_circle(&mut self, cx: i32, cy: i32, r: i32, edge: &[&[u8]], c: Bgra)
        requires
            old(self).wf(),
            i32::MIN <= cx - r <= i32::MAX,
            i32::MIN <= cy - r <= i32::MAX,
            i32::MIN <= 2 * r <= i32::MAX,
        ensures
            final(self).wf(),
            final(self).width() == old(self).width(),
            final(self).height() == old(self).height(),
            final(self).pixels() == painted(
                old(self).pixels(),
                old(self).width() as int,
                cx - r,
                cy - r,
                shape_rows(mask_rows(edge), 2 * r, 2 * r, clamped_radius(2 * r, 2 * r, r as int)),
                c,
            ),
            forall|i: int|
                0 <= i < old(self).pixels().len() && !in_rect(
                    i % old(self).width() as int,
                    i / old(self).width() as int,
                    cx - r,
                    cy - r,
                    2 * r,
                    2 * r,
                ) ==> #[trigger] final(self).pixels()[i] == old(self).pixels()[i],
            forall|i: int|
                0 <= i < old(self).pixels().len() && in_rect(
                    i % old(self).width() as int,
                    i / old(self).width() as int,
                    cx - r,
                    cy - r,
                    2 * r,
                    2 * r,
                ) && corner_of(
                    i % old(self).width() as int - (cx - r),
                    i / old(self).width() as int - (cy - r),
                    2 * r,
                    2 * r,
                    clamped_radius(2 * r, 2 * r, r as int),
                ) == Corner::Inside ==> #[trigger] final(self).pixels()[i] == px(c),
    {
        self.round_rect(cx - r, cy - r, 2 * r, 2 * r, r, edge, c);
    }

    /// Composites a premultiplied BGRA image of `iw × ih` pixels with its
    /// top-left corner at `(x, y)`; fully transparent pixels are skipped.
    pub fn blit_bgra(&mut self, x: i32, y: i32, iw: usize, ih: usize, bgra: &[u8])
        requires
            old(self).wf(),
            iw * ih * 4 <= bgra@.len(),
        ensures
            final(self).wf(),
            final(self).width() == old(self).width(),
            final(self).height() == old(self).height(),
            final(self).pixels() == blitted(
                old(self).pixels(),
                old(self).width() as int,
                x as int,
                y as int,
                bgra@,
                iw as int,
                ih as int,
            ),
    {
        let cw = self.w;
        let ch = self.h;
        let ghost old_px = self.pixels();
        let ghost img = bgra@;
        let n = bgra.len();
        let mut row: usize = 0;
        while row < ih
            invariant
                self.wf(),
                self.w == cw,
                self.h == ch,
                row <= ih,
                old_px.len() == cw * ch,
                img == bgra@,
                n == img.len(),
                iw * ih * 4 <= img.len(),
                self.pixels() == blitted_upto(
                    old_px,
                    cw as int,
                    x as int,
                    y as int,
                    img,
                    iw as int,
                    ih as int,
                    row as int,
                    0,
                ),
            decreases ih - row,
        {
            let mut col: usize = 0;
            while col < iw
                invariant
                    self.wf(),
                    self.w == cw,
                    self.h == ch,
                    row < ih,
                    col <= iw,
                    old_px.len() == cw * ch,
                    img == bgra@,
                    n == img.len(),
                    iw * ih * 4 <= img.len(),
                    self.pixels() == blitted_upto(
                        old_px,
                        cw as int,
                        x as int,
                        y as int,
                        img,
                        iw as int,
                        ih as int,
                        row as int,
                        col as int,
                    ),
                decreases iw - col,
            {
                proof {
                    assert((row * iw + col) * 4 + 4 <= iw * ih * 4 && row * iw <= row * iw + col)
                        by (nonlinear_arith)
                        requires
                            row < ih,
                            col < iw,
                    ;
                }
                let i = (row * iw + col) * 4;
                let b = bgra[i];
                let g = bgra[i + 1];
                let r = bgra[i + 2];
                let a = bgra[i + 3];
                let ghost before = self.pixels();
                let px_: i128 = x as i128 + col as i128;
                let py_: i128 = y as i128 + row as i128;
                if a != 0 && px_ >= 0 && py_ >= 0 && px_ < cw as i128 && py_ < ch as i128 {
                    self.over_premul(px_ as usize, py_ as usize, b, g, r, a);
                }
                proof {
                    let next = blitted_upto(
                        old_px,
                        cw as int,
                        x as int,
                        y as int,
                        img,
                        iw as int,
                        ih as int,
                        row as int,
                        col + 1,
                    );
                    assert forall|k: int| 0 <= k < old_px.len() implies self.pixels()[k]
                        == next[k] by {
                        lemma_coords(k, cw as int, ch as int);
                        let cc = k % (cw as int) - x;
                        let rr = k / (cw as int) - y;
                        if cc == col && rr == row {
                            lemma_index(px_ as int, py_ as int, cw as int, ch as int);
                        } else if 0 <= px_ < cw && 0 <= py_ < ch {
                            lemma_index(px_ as int, py_ as int, cw as int, ch as int);
                            assert(k != py_ * cw + px_);
                        }
                    }
                    assert(self.pixels() =~= next);
                }
                col = col + 1;
            }
            proof {
                let next = blitted_upto(
                    old_px,
                    cw as int,
                    x as int,
                    y as int,
                    img,
                    iw as int,
                    ih as int,
                    row + 1,
                    0,
                );
                let cur = blitted_upto(
                    old_px,
                    cw as int,
                    x as int,
                    y as int,
                    img,
                    iw as int,
                    ih as int,
                    row as int,
                    iw as int,
                );
                assert(cur =~= next);
            }
            row = row + 1;
        }
        proof {
            let fin = blitted(old_px, cw as int, x as int, y as int, img, iw as int, ih as int);
            let cur = blitted_upto(
                old_px,
                cw as int,
                x as int,
                y as int,
                img,
                iw as int,
                ih as int,
                row as int,
                0,
            );
            assert(cur =~= fin);
        }
    }
}

/// The coverage of a border, position by position (see [`border_rows`]).
pub fn border_mask(outer: &[&[u8]], inner: &[&[u8]], t: i32) -> (m: Vec<Vec<u8>>)
    ensures
        owned_rows(m@) == border_rows(mask_rows(outer), mask_rows(inner), t as int),
{
    let ghost o = mask_rows(outer);
    let ghost n = mask_rows(inner);
    let mut m: Vec<Vec<u8>> = Vec::new();
    let mut yy: usize = 0;
    while yy < outer.len()
        invariant
            yy <= outer@.len(),
            o == mask_rows(outer),
            n == mask_rows(inner),
            m@.len() == yy,
            forall|k: int| 0 <= k < yy ==> (#[trigger] m@[k])@ == border_rows(o, n, t as int)[k],
        decreases outer@.len() - yy,
    {
        let orow: &[u8] = outer[yy];
        let mut line: Vec<u8> = Vec::new();
        let mut xx: usize = 0;
        while xx < orow.len()
            invariant
                yy < outer@.len(),
                orow == outer@[yy as int],
                xx <= orow@.len(),
                o == mask_rows(outer),
                n == mask_rows(inner),
                line@.len() == xx,
                forall|k: int| 0 <= k < xx ==> line@[k] == border_cov(o[yy as int][k], cov_at(n, k - t, yy - t)),
            decreases orow@.len() - xx,
        {
            let oc = orow[xx];
            let ix: i128 = xx as i128 - t as i128;
            let iy: i128 = yy as i128 - t as i128;
            let mut ic: u8 = 0;
            if iy >= 0 && iy < inner.len() as i128 {
                let irow: &[u8] = inner[iy as usize];
                if ix >= 0 && ix < irow.len() as i128 {
                    ic = irow[ix as usize];
                }
            }
            assert(ic == cov_at(n, xx - t, yy - t));
            let v: u8 = if oc <= ic {
                0
            } else {
                oc - ic
            };
            line.push(v);
            xx = xx + 1;
        }
        proof {
            assert(line@ =~= border_rows(o, n, t as int)[yy as int]);
        }
        m.push(line);
        yy = yy + 1;
    }
    proof {
        assert(owned_rows(m@) =~= border_rows(o, n, t as int));
    }
    m
}

/// Borrows each row of an owned mask, for drawing through it.
pub fn borrow_rows(m: &Vec<Vec<u8>>) -> (rows: Vec<&[u8]>)
    ensures
        slice_rows(rows@) == owned_rows(m@),
{
    let mut rows: Vec<&[u8]> = Vec::new();
    let mut k: usize = 0;
    while k < m.len()
        invariant
            k <= m@.len(),
            rows@.len() == k,
            forall|j: int| 0 <= j < k ==> (#[trigger] rows@[j])@ == m@[j]@,
        decreases m@.len() - k,
    {
        rows.push(m[k].as_slice());
        k = k + 1;
    }
    proof {
        assert(slice_rows(rows@) =~= owned_rows(m@));
    }
    rows
}

} // verus!
