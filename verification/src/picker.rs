//! The boot picker: its state, how input events and the countdown move it,
//! and the screen it shows, in the Steam Big Picture design language (dark
//! gradient backdrop, two rounded "capsule" tiles, the focused one lifted
//! with an accent glow, and a footer bar of A/B/Y controller hints).
//!
//! The screen is laid out here as a list of drawing operations in paint
//! order; the firmware layer performs them on the canvas and presents the
//! frame.

use vstd::prelude::*;

use crate::canvas::div_trunc;
use crate::config::{Config, Os};
use crate::engine::types::owned;
use crate::input::Event;
use crate::strings::{dec, digit_char, digit_exec, push_char, push_str};
use crate::text::{measure, text_width, Size, Weight};
use crate::theme::{
    accent, bg_bottom, bg_top, destructive, glow, glyph_a, glyph_b, glyph_y, surface_3, surface_4,
    text_bright, text_secondary, text_white, Bgra,
};

verus! {

/// A logo: a premultiplied BGRA image of `w × h` pixels, row by row.
#[derive(Clone, Copy, Debug, PartialEq, Eq)]
pub struct Logo {
    pub w: usize,
    pub h: usize,
    pub bgra: &'static [u8],
}

/// One of the two OS tiles.
pub struct Tile {
    pub os: Os,
    pub title: &'static str,
    pub subtitle: &'static str,
    pub logo: &'static Logo,
    /// Whether the OS's loader is on the ESP.
    pub present: bool,
}

impl Tile {
    /// A tile's logo holds `w × h` pixels of four bytes, and both sides are
    /// at most 65535 pixels.
    pub open spec fn wf(&self) -> bool {
        &&& self.logo.w <= 0xFFFF
        &&& self.logo.h <= 0xFFFF
        &&& self.logo.bgra@.len() == self.logo.w * self.logo.h * 4
    }
}

/// The picker's state.
#[derive(Clone, Copy, Debug, PartialEq, Eq)]
pub struct State {
    /// The highlighted tile.
    pub sel: usize,
    /// The OS booted when the countdown ends.
    pub default: Os,
    /// Remaining auto-boot seconds, or `None` once the user has interacted.
    pub countdown: Option<u8>,
}

/// Tile width.
pub const TILE_W: i32 = 340;
/// Tile height.
pub const TILE_H: i32 = 420;
/// Space between the tiles.
pub const GAP: i32 = 64;
/// Top edge of the tiles.
pub const TOP: i32 = 196;
/// How far the focused tile grows on each side.
pub const LIFT: i32 = 10;

/// One drawing operation of a frame.
#[derive(Debug, PartialEq)]
pub enum DrawOp {
    /// Vertical gradient over the whole canvas.
    Gradient { top: Bgra, bottom: Bgra },
    /// Rounded rectangle of `w × h` with corner radius `r`.
    RoundRect { x: i32, y: i32, w: i32, h: i32, r: i32, color: Bgra },
    /// Rounded border of thickness `t` around a `w × h` box.
    RoundBorder { x: i32, y: i32, w: i32, h: i32, r: i32, t: i32, color: Bgra },
    /// Filled circle.
    Circle { cx: i32, cy: i32, r: i32, color: Bgra },
    /// A logo with its top-left corner at `(x, y)`.
    Image { x: i32, y: i32, logo: &'static Logo },
    /// Text with its top-left corner at `(x, y)`.
    Text { x: i32, y: i32, text: String, size: Size, weight: Weight, color: Bgra },
    /// Text centred in `[x, x + w)` with its top at `y`.
    Centered { x: i32, w: i32, y: i32, text: String, size: Size, weight: Weight, color: Bgra },
}

/// A drawing operation as plain values.
#[verifier::ext_equal]
pub enum OpView {
    Gradient { top: Bgra, bottom: Bgra },
    RoundRect { x: int, y: int, w: int, h: int, r: int, color: Bgra },
    RoundBorder { x: int, y: int, w: int, h: int, r: int, t: int, color: Bgra },
    Circle { cx: int, cy: int, r: int, color: Bgra },
    Image { x: int, y: int, w: int, h: int, image: Seq<u8> },
    Text { x: int, y: int, text: Seq<char>, size: Size, weight: Weight, color: Bgra },
    Centered { x: int, w: int, y: int, text: Seq<char>, size: Size, weight: Weight, color: Bgra },
}

impl View for DrawOp {
    type V = OpView;

    open spec fn view(&self) -> OpView {
        match *self {
            DrawOp::Gradient { top, bottom } => OpView::Gradient { top, bottom },
            DrawOp::RoundRect { x, y, w, h, r, color } => OpView::RoundRect {
                x: x as int,
                y: y as int,
                w: w as int,
                h: h as int,
                r: r as int,
                color,
            },
            DrawOp::RoundBorder { x, y, w, h, r, t, color } => OpView::RoundBorder {
                x: x as int,
                y: y as int,
                w: w as int,
                h: h as int,
                r: r as int,
                t: t as int,
                color,
            },
            DrawOp::Circle { cx, cy, r, color } => OpView::Circle {
                cx: cx as int,
                cy: cy as int,
                r: r as int,
                color,
            },
            DrawOp::Image { x, y, logo } => OpView::Image {
                x: x as int,
                y: y as int,
                w: logo.w as int,
                h: logo.h as int,
                image: logo.bgra@,
            },
            DrawOp::Text { x, y, text, size, weight, color } => OpView::Text {
                x: x as int,
                y: y as int,
                text: text@,
                size,
                weight,
                color,
            },
            DrawOp::Centered { x, w, y, text, size, weight, color } => OpView::Centered {
                x: x as int,
                w: w as int,
                y: y as int,
                text: text@,
                size,
                weight,
                color,
            },
        }
    }
}

/// A list of drawing operations as plain values.
pub open spec fn op_views(ops: Seq<DrawOp>) -> Seq<OpView> {
    ops.map_values(|o: DrawOp| o@)
}

// --- Colours as values ------------------------------------------------------

pub open spec fn c_bg_top() -> Bgra {
    Bgra::from_rgb(0x212328)
}

pub open spec fn c_bg_bottom() -> Bgra {
    Bgra::from_rgb(0x191A1E)
}

pub open spec fn c_surface_3() -> Bgra {
    Bgra::from_rgb(0x23262E)
}

pub open spec fn c_surface_4() -> Bgra {
    Bgra::from_rgb(0x3D4450)
}

pub open spec fn c_text_secondary() -> Bgra {
    Bgra::from_rgb(0x8B929A)
}

pub open spec fn c_text_bright() -> Bgra {
    Bgra::from_rgb(0xDCDEDF)
}

pub open spec fn c_text_white() -> Bgra {
    Bgra::from_rgb(0xFFFFFF)
}

pub open spec fn c_accent() -> Bgra {
    Bgra::from_rgb(0x1A9FFF)
}

pub open spec fn c_glow() -> Bgra {
    Bgra::from_rgb(0x199FFF)
}

pub open spec fn c_destructive() -> Bgra {
    Bgra::from_rgb(0xDE3618)
}

// --- Layout -----------------------------------------------------------------

/// The operations that draw one tile whose unfocused box has its top-left
/// corner at `(x, y)`. The focused tile grows by [`LIFT`] on each side, is
/// brighter, and gets an accent glow; a missing OS is flagged, and the default
/// OS gets a dot and a "DEFAULT" label centred as a group.
pub open spec fn tile_ops(x: int, y: int, tile: Tile, focused: bool, is_default: bool) -> Seq<OpView> {
    let bx = if focused {
        x - LIFT
    } else {
        x
    };
    let by = if focused {
        y - LIFT
    } else {
        y
    };
    let tw = if focused {
        TILE_W + LIFT * 2
    } else {
        TILE_W as int
    };
    let th = if focused {
        TILE_H + LIFT * 2
    } else {
        TILE_H as int
    };
    let surface = if focused {
        c_surface_3().scaled(135)
    } else {
        c_surface_3()
    };
    let body = seq![OpView::RoundRect { x: bx, y: by, w: tw, h: th, r: 12, color: surface }];
    let border = if focused {
        seq![
            OpView::RoundBorder { x: bx - 2, y: by - 2, w: tw + 4, h: th + 4, r: 14, t: 3, color: c_glow() },
            OpView::RoundBorder { x: bx, y: by, w: tw, h: th, r: 12, t: 1, color: c_accent() },
        ]
    } else {
        seq![OpView::RoundBorder { x: bx, y: by, w: tw, h: th, r: 12, t: 1, color: c_surface_4() }]
    };
    let logo = seq![
        OpView::Image {
            x: bx + div_trunc(tw - tile.logo.w, 2),
            y: by + 56,
            w: tile.logo.w as int,
            h: tile.logo.h as int,
            image: tile.logo.bgra@,
        },
    ];
    let title_y = by + 280;
    let texts = seq![
        OpView::Centered {
            x: bx,
            w: tw,
            y: title_y,
            text: tile.title@,
            size: Size::H2,
            weight: Weight::Bold,
            color: if focused {
                c_text_white()
            } else {
                c_text_bright()
            },
        },
        OpView::Centered {
            x: bx,
            w: tw,
            y: title_y + 44,
            text: tile.subtitle@,
            size: Size::Body,
            weight: Weight::Regular,
            color: c_text_secondary(),
        },
    ];
    let badge_y = by + th - 44;
    let group_w = 5 * 2 + 10 + text_width("DEFAULT"@, Size::Body);
    let gx = bx + div_trunc(tw - group_w, 2);
    let badge = if !tile.present {
        seq![
            OpView::Centered {
                x: bx,
                w: tw,
                y: badge_y,
                text: "NOT INSTALLED"@,
                size: Size::Body,
                weight: Weight::Bold,
                color: c_destructive(),
            },
        ]
    } else if is_default {
        seq![
            OpView::Circle { cx: gx + 5, cy: badge_y + 10, r: 5, color: c_accent() },
            OpView::Text {
                x: gx + 5 * 2 + 10,
                y: badge_y,
                text: "DEFAULT"@,
                size: Size::Body,
                weight: Weight::Bold,
                color: c_accent(),
            },
        ]
    } else {
        seq![]
    };
    body + border + logo + texts + badge
}

/// The operations of one footer hint: a round glyph chip with its letter,
/// then the label after it.
pub open spec fn hint_ops(cx: int, y: int, glyph: Seq<char>, label: Seq<char>, color: Bgra) -> Seq<OpView> {
    seq![
        OpView::RoundRect { x: cx, y, w: 30, h: 30, r: 15, color },
        OpView::Centered {
            x: cx,
            w: 30,
            y: y + 4,
            text: glyph,
            size: Size::Body,
            weight: Weight::Bold,
            color: c_text_white(),
        },
        OpView::Text {
            x: cx + 40,
            y: y + 4,
            text: label,
            size: Size::Body,
            weight: Weight::Regular,
            color: c_text_bright(),
        },
    ]
}

/// The horizontal room a footer hint takes, gap after it included.
pub open spec fn hint_advance(label: Seq<char>) -> int {
    30 + 10 + text_width(label, Size::Body) + 36
}

/// The footer: A "Boot", B "Firmware Setup" and Y "Set Default" hints,
/// centred as a row 56 pixels above the bottom of a `w × h` canvas.
pub open spec fn footer_ops(w: int, h: int) -> Seq<OpView> {
    let y = h - 56;
    let l0 = "Boot"@;
    let l1 = "Firmware Setup"@;
    let l2 = "Set Default"@;
    let total = hint_advance(l0) + hint_advance(l1) + hint_advance(l2) - 36;
    let cx0 = div_trunc(w - total, 2);
    let cx1 = cx0 + hint_advance(l0);
    let cx2 = cx1 + hint_advance(l1);
    hint_ops(cx0, y, "A"@, l0, Bgra::from_rgb(0x5BA32B)) + hint_ops(
        cx1,
        y,
        "B"@,
        l1,
        Bgra::from_rgb(0xC0392B),
    ) + hint_ops(cx2, y, "Y"@, l2, Bgra::from_rgb(0xD4A017))
}

/// The title of the tile showing `os`, or "default" if no tile does.
pub open spec fn os_title(tiles: Seq<Tile>, os: Os) -> Seq<char> {
    if tiles[0].os == os {
        tiles[0].title@
    } else if tiles[1].os == os {
        tiles[1].title@
    } else {
        "default"@
    }
}

/// The hint line under the tiles: the countdown to the default OS while it
/// runs, otherwise how to boot.
pub open spec fn hint_text(tiles: Seq<Tile>, st: State) -> Seq<char> {
    match st.countdown {
        Some(secs) => "Starting "@ + os_title(tiles, st.default) + " in "@ + dec(secs as nat)
            + "s   \u{b7}   press any input to choose"@,
        None => "Highlight an OS and press A / Enter to boot"@,
    }
}

/// The whole frame for a `w × h` canvas: backdrop, header, both tiles side
/// by side and centred, the hint line and the footer.
pub open spec fn frame_ops(w: int, h: int, tiles: Seq<Tile>, st: State) -> Seq<OpView> {
    let x0 = div_trunc(w - (TILE_W * 2 + GAP), 2);
    seq![
        OpView::Gradient { top: c_bg_top(), bottom: c_bg_bottom() },
        OpView::Centered {
            x: 0,
            w,
            y: 64,
            text: "STEAM DUALBOOT"@,
            size: Size::Body,
            weight: Weight::Bold,
            color: c_accent(),
        },
        OpView::Centered {
            x: 0,
            w,
            y: 92,
            text: "Choose an operating system"@,
            size: Size::H2,
            weight: Weight::Bold,
            color: c_text_white(),
        },
    ] + tile_ops(x0, TOP as int, tiles[0], st.sel == 0, tiles[0].os == st.default) + tile_ops(
        x0 + TILE_W + GAP,
        TOP as int,
        tiles[1],
        st.sel == 1,
        tiles[1].os == st.default,
    ) + seq![
        OpView::Centered {
            x: 0,
            w,
            y: TOP + TILE_H + 48,
            text: hint_text(tiles, st),
            size: Size::Body,
            weight: Weight::Regular,
            color: c_text_secondary(),
        },
    ] + footer_ops(w, h)
}

/// Appends the decimal digits of `n` (no leading zeros) to `s`.
pub fn push_u8(s: &mut String, n: u8)
    ensures
        final(s)@ == old(s)@ + dec(n as nat),
{
    proof {
        reveal_with_fuel(dec, 3);
    }
    if n >= 100 {
        push_char(s, digit_exec((n / 100) as u64));
    }
    if n >= 10 {
        push_char(s, digit_exec(((n / 10) % 10) as u64));
    }
    push_char(s, digit_exec((n % 10) as u64));
    proof {
        let ghost d = dec(n as nat);
        if n >= 100 {
            assert(dec((n / 10) as nat) == dec((n / 100) as nat).push(digit_char(((n / 10) % 10) as nat)));
        }
        assert(d == if n < 10 {
            seq![digit_char(n as nat)]
        } else {
            dec((n / 10) as nat).push(digit_char((n % 10) as nat))
        });
    }
}

/// Appends the operations that draw one tile (see [`tile_ops`]).
pub fn draw_tile(ops: &mut Vec<DrawOp>, x: i32, y: i32, tile: &Tile, focused: bool, is_default: bool)
    requires
        tile.wf(),
        -0x4000_0000 <= x <= 0x4000_1000,
        -0x4000_0000 <= y <= 0x4000_1000,
    ensures
        op_views(final(ops)@) == op_views(old(ops)@) + tile_ops(x as int, y as int, *tile, focused, is_default),
{
    let ghost start = op_views(ops@);
    let (bx, by, tw, th) = if focused {
        (x - LIFT, y - LIFT, TILE_W + LIFT * 2, TILE_H + LIFT * 2)
    } else {
        (x, y, TILE_W, TILE_H)
    };
    let surface = if focused {
        surface_3().scale(135)
    } else {
        surface_3()
    };
    ops.push(DrawOp::RoundRect { x: bx, y: by, w: tw, h: th, r: 12, color: surface });
    if focused {
        ops.push(DrawOp::RoundBorder { x: bx - 2, y: by - 2, w: tw + 4, h: th + 4, r: 14, t: 3, color: glow() });
        ops.push(DrawOp::RoundBorder { x: bx, y: by, w: tw, h: th, r: 12, t: 1, color: accent() });
    } else {
        ops.push(DrawOp::RoundBorder { x: bx, y: by, w: tw, h: th, r: 12, t: 1, color: surface_4() });
    }
    let logo = tile.logo;
    let lx = bx + (tw - logo.w as i32) / 2;
    let ly = by + 56;
    ops.push(DrawOp::Image { x: lx, y: ly, logo });
    let title_y = by + 280;
    let title_color = if focused {
        text_white()
    } else {
        text_bright()
    };
    ops.push(
        DrawOp::Centered {
            x: bx,
            w: tw,
            y: title_y,
            text: owned(tile.title),
            size: Size::H2,
            weight: Weight::Bold,
            color: title_color,
        },
    );
    ops.push(
        DrawOp::Centered {
            x: bx,
            w: tw,
            y: title_y + 44,
            text: owned(tile.subtitle),
            size: Size::Body,
            weight: Weight::Regular,
            color: text_secondary(),
        },
    );
    let badge_y = by + th - 44;
    if !tile.present {
        ops.push(
            DrawOp::Centered {
                x: bx,
                w: tw,
                y: badge_y,
                text: owned("NOT INSTALLED"),
                size: Size::Body,
                weight: Weight::Bold,
                color: destructive(),
            },
        );
    } else if is_default {
        let label = "DEFAULT";
        proof {
            reveal_strlit("DEFAULT");
        }
        let dot_r: i32 = 5;
        let gap: i32 = 10;
        let tw_label = measure(label, Size::Body, Weight::Bold) as i32;
        let group_w = dot_r * 2 + gap + tw_label;
        let gx = bx + (tw - group_w) / 2;
        let cy = badge_y + crate::text::line_height(Size::Body) as i32 / 2;
        ops.push(DrawOp::Circle { cx: gx + dot_r, cy, r: dot_r, color: accent() });
        ops.push(
            DrawOp::Text {
                x: gx + dot_r * 2 + gap,
                y: badge_y,
                text: owned(label),
                size: Size::Body,
                weight: Weight::Bold,
                color: accent(),
            },
        );
    }
    proof {
        assert(op_views(ops@) =~= start + tile_ops(x as int, y as int, *tile, focused, is_default));
    }
}

/// Appends the operations of one footer hint and returns the pen position
/// after it, gap included.
fn draw_hint(ops: &mut Vec<DrawOp>, cx: i32, y: i32, glyph: &str, label: &str, color: Bgra) -> (next: i32)
    requires
        -0x4000_0000 <= cx <= 0x4000_1000,
        i32::MIN <= y,
        y + 4 <= i32::MAX,
        label@.len() <= 32,
    ensures
        op_views(final(ops)@) == op_views(old(ops)@) + hint_ops(cx as int, y as int, glyph@, label@, color),
        next == cx + hint_advance(label@),
{
    let ghost start = op_views(ops@);
    let glyph_d: i32 = 30;
    let pad: i32 = 10;
    let gap: i32 = 36;
    ops.push(DrawOp::RoundRect { x: cx, y, w: glyph_d, h: glyph_d, r: glyph_d / 2, color });
    ops.push(
        DrawOp::Centered {
            x: cx,
            w: glyph_d,
            y: y + 4,
            text: owned(glyph),
            size: Size::Body,
            weight: Weight::Bold,
            color: text_white(),
        },
    );
    let lx = cx + glyph_d + pad;
    ops.push(
        DrawOp::Text {
            x: lx,
            y: y + 4,
            text: owned(label),
            size: Size::Body,
            weight: Weight::Regular,
            color: text_bright(),
        },
    );
    let lw = measure(label, Size::Body, Weight::Regular) as i32;
    assert(lw == label@.len() * 9);
    proof {
        assert(op_views(ops@) =~= start + hint_ops(cx as int, y as int, glyph@, label@, color));
    }
    lx + lw + gap
}

/// Appends the footer's operations (see [`footer_ops`]) for a `w × h` canvas.
pub fn draw_footer(ops: &mut Vec<DrawOp>, w: i32, h: i32)
    requires
        0 <= w,
        0 <= h,
    ensures
        op_views(final(ops)@) == op_views(old(ops)@) + footer_ops(w as int, h as int),
{
    let ghost start = op_views(ops@);
    let y = h - 56;
    proof {
        reveal_strlit("Boot");
        reveal_strlit("Firmware Setup");
        reveal_strlit("Set Default");
    }
    let m0 = measure("Boot", Size::Body, Weight::Regular) as i32;
    let m1 = measure("Firmware Setup", Size::Body, Weight::Regular) as i32;
    let m2 = measure("Set Default", Size::Body, Weight::Regular) as i32;
    let total = (30 + 10 + m0 + 36) + (30 + 10 + m1 + 36) + (30 + 10 + m2 + 36) - 36;
    let cx = (w - total) / 2;
    let cx = draw_hint(ops, cx, y, "A", "Boot", glyph_a());
    let cx = draw_hint(ops, cx, y, "B", "Firmware Setup", glyph_b());
    draw_hint(ops, cx, y, "Y", "Set Default", glyph_y());
    proof {
        assert(op_views(ops@) =~= start + footer_ops(w as int, h as int));
    }
}

/// The operations of one frame for a canvas of `w × h` pixels (see
/// [`frame_ops`]); the firmware layer draws them in order and presents.
pub fn render(w: usize, h: usize, tiles: &[Tile; 2], st: &State) -> (ops: Vec<DrawOp>)
    requires
        w <= i32::MAX,
        h <= i32::MAX,
        tiles@[0].wf(),
        tiles@[1].wf(),
    ensures
        op_views(ops@) == frame_ops(w as int, h as int, tiles@, *st),
{
    let w = w as i32;
    let h = h as i32;
    let mut ops: Vec<DrawOp> = Vec::new();
    ops.push(DrawOp::Gradient { top: bg_top(), bottom: bg_bottom() });
    ops.push(
        DrawOp::Centered {
            x: 0,
            w,
            y: 64,
            text: owned("STEAM DUALBOOT"),
            size: Size::Body,
            weight: Weight::Bold,
            color: accent(),
        },
    );
    ops.push(
        DrawOp::Centered {
            x: 0,
            w,
            y: 92,
            text: owned("Choose an operating system"),
            size: Size::H2,
            weight: Weight::Bold,
            color: text_white(),
        },
    );
    let total = TILE_W * 2 + GAP;
    let x0 = (w - total) / 2;
    let ghost g0 = op_views(ops@);
    proof {
        reveal_strlit("STEAM DUALBOOT");
        reveal_strlit("Choose an operating system");
        assert(g0 =~= frame_ops(w as int, h as int, tiles@, *st).subrange(0, 3));
    }
    let t0 = &tiles[0];
    assert(*t0 == tiles@[0]);
    draw_tile(&mut ops, x0, TOP, t0, st.sel == 0, tiles[0].os == st.default);
    assert(op_views(ops@) == g0 + tile_ops(x0 as int, TOP as int, tiles@[0], st.sel == 0, tiles@[0].os == st.default));
    assert(x0 == div_trunc(w - (TILE_W * 2 + GAP), 2));
    draw_tile(&mut ops, x0 + (TILE_W + GAP), TOP, &tiles[1], st.sel == 1, tiles[1].os == st.default);
    let ghost a = tile_ops(x0 as int, TOP as int, tiles@[0], st.sel == 0, tiles@[0].os == st.default);
    let ghost b = tile_ops(x0 + TILE_W + GAP, TOP as int, tiles@[1], st.sel == 1, tiles@[1].os == st.default);
    assert(op_views(ops@) =~= g0 + a + b);
    let hint_y = TOP + TILE_H + 48;
    let line = hint_line(tiles, st);
    ops.push(
        DrawOp::Centered {
            x: 0,
            w,
            y: hint_y,
            text: line,
            size: Size::Body,
            weight: Weight::Regular,
            color: text_secondary(),
        },
    );
    let ghost g1 = op_views(ops@);
    draw_footer(&mut ops, w, h);
    proof {
        let t = tiles@;
        let hop = seq![
            OpView::Centered {
                x: 0,
                w: w as int,
                y: TOP + TILE_H + 48,
                text: hint_text(t, *st),
                size: Size::Body,
                weight: Weight::Regular,
                color: c_text_secondary(),
            },
        ];
        assert(g1 =~= g0 + a + b + hop);
        assert(frame_ops(w as int, h as int, t, *st) =~= g0 + a + b + hop + footer_ops(w as int, h as int));
        assert(op_views(ops@) =~= frame_ops(w as int, h as int, t, *st));
    }
    ops
}

/// The hint line under the tiles (see [`hint_text`]).
pub fn hint_line(tiles: &[Tile; 2], st: &State) -> (line: String)
    ensures
        line@ == hint_text(tiles@, *st),
{
    match st.countdown {
        Some(secs) => {
            let name = if tiles[0].os == st.default {
                tiles[0].title
            } else if tiles[1].os == st.default {
                tiles[1].title
            } else {
                "default"
            };
            let mut line = String::new();
            push_str(&mut line, "Starting ");
            push_str(&mut line, name);
            push_str(&mut line, " in ");
            push_u8(&mut line, secs);
            push_str(&mut line, "s   \u{b7}   press any input to choose");
            line
        },
        None => owned("Highlight an OS and press A / Enter to boot"),
    }
}

// --- Decisions ----------------------------------------------------------------

/// What the firmware layer does after an event.
#[derive(Clone, Copy, PartialEq, Eq, Debug, Structural)]
pub enum Command {
    /// Draw the picker again.
    Redraw,
    /// Boot this OS (see [`boot_os`]).
    Boot(Os),
    /// Persist the configuration, then draw the picker again.
    Save,
    /// Reboot into the firmware's setup screen.
    Firmware,
}

/// The state, configuration and command after event `ev`: any event stops
/// the countdown; Prev and Next move the highlight without leaving the two
/// tiles; Select boots the highlighted OS if its loader is present; SetDefault
/// makes the highlighted OS the default and saves; Back enters the firmware.
pub open spec fn after_event(ev: Event, st: State, cfg: Config, tiles: Seq<Tile>) -> (State, Config, Command) {
    let quiet = State { sel: st.sel, default: st.default, countdown: None };
    match ev {
        Event::Prev => (
            State {
                sel: if st.sel == 0 {
                    0
                } else {
                    (st.sel - 1) as usize
                },
                ..quiet
            },
            cfg,
            Command::Redraw,
        ),
        Event::Next => (
            State {
                sel: if st.sel + 1 < 1 {
                    (st.sel + 1) as usize
                } else {
                    1
                },
                ..quiet
            },
            cfg,
            Command::Redraw,
        ),
        Event::Select => (
            quiet,
            cfg,
            if tiles[st.sel as int].present {
                Command::Boot(tiles[st.sel as int].os)
            } else {
                Command::Redraw
            },
        ),
        Event::SetDefault => (
            State { default: tiles[st.sel as int].os, ..quiet },
            Config { default: tiles[st.sel as int].os, ..cfg },
            Command::Save,
        ),
        Event::Back => (quiet, cfg, Command::Firmware),
    }
}

/// Applies one input event to the picker (see [`after_event`]).
pub fn handle(ev: Event, st: &mut State, cfg: &mut Config, tiles: &[Tile; 2]) -> (cmd: Command)
    requires
        old(st).sel < 2,
    ensures
        (*final(st), *final(cfg), cmd) == after_event(ev, *old(st), *old(cfg), tiles@),
        final(st).sel < 2,
        final(st).countdown is None,
        ev is Select && tiles@[old(st).sel as int].present ==> cmd == Command::Boot(tiles@[old(st).sel as int].os),
        ev is Select && !tiles@[old(st).sel as int].present ==> cmd == Command::Redraw,
        ev is Back ==> cmd == Command::Firmware,
{
    st.countdown = None;
    match ev {
        Event::Prev => {
            st.sel = if st.sel == 0 {
                0
            } else {
                st.sel - 1
            };
            Command::Redraw
        },
        Event::Next => {
            let n = tiles.len() - 1;
            st.sel = if st.sel + 1 < n {
                st.sel + 1
            } else {
                n
            };
            Command::Redraw
        },
        Event::Select => {
            let t = &tiles[st.sel];
            if t.present {
                Command::Boot(t.os)
            } else {
                Command::Redraw
            }
        },
        Event::SetDefault => {
            cfg.default = tiles[st.sel].os;
            st.default = cfg.default;
            Command::Save
        },
        Event::Back => Command::Firmware,
    }
}

/// The picker's state when it starts: the default OS highlighted, and the
/// countdown running when the configuration asks for one.
pub open spec fn initial_view(cfg: Config) -> State {
    State {
        sel: match cfg.default {
            Os::SteamOs => 0,
            Os::Windows => 1,
        },
        default: cfg.default,
        countdown: if cfg.timeout > 0 {
            Some(cfg.timeout)
        } else {
            None
        },
    }
}

/// The picker's state when it starts (see [`initial_view`]).
pub fn initial_state(cfg: &Config) -> (st: State)
    ensures
        st == initial_view(*cfg),
        st.sel < 2,
{
    State {
        sel: match cfg.default {
            Os::SteamOs => 0,
            Os::Windows => 1,
        },
        default: cfg.default,
        countdown: if cfg.timeout > 0 {
            Some(cfg.timeout)
        } else {
            None
        },
    }
}

/// The state after a second passes without input, and the OS to boot if the
/// countdown ran out: a countdown at one second or less boots the default
/// and stops (a boot that comes back leaves the user to choose).
pub open spec fn ticked(st: State) -> (State, Option<Os>) {
    match st.countdown {
        None => (st, None),
        Some(secs) => if secs <= 1 {
            (State { countdown: None, ..st }, Some(st.default))
        } else {
            (State { countdown: Some((secs - 1) as u8), ..st }, None)
        },
    }
}

/// One second has passed without input (see [`ticked`]).
pub fn tick(st: &mut State) -> (boot: Option<Os>)
    ensures
        (*final(st), boot) == ticked(*old(st)),
{
    match st.countdown {
        None => None,
        Some(secs) => {
            if secs <= 1 {
                st.countdown = None;
                Some(st.default)
            } else {
                st.countdown = Some(secs - 1);
                None
            }
        },
    }
}

/// The path of an OS's loader on the ESP.
pub open spec fn loader_of(os: Os) -> Seq<char> {
    match os {
        Os::SteamOs => "\\EFI\\steamos\\steamcl.efi"@,
        Os::Windows => "\\EFI\\Microsoft\\Boot\\bootmgfw.efi"@,
    }
}

/// The path of an OS's loader on the ESP.
pub fn loader_path(os: Os) -> (p: &'static str)
    ensures
        p@ == loader_of(os),
{
    match os {
        Os::SteamOs => "\\EFI\\steamos\\steamcl.efi",
        Os::Windows => "\\EFI\\Microsoft\\Boot\\bootmgfw.efi",
    }
}

/// Whether one of the tiles shows `os` with its loader present.
pub open spec fn bootable(tiles: Seq<Tile>, os: Os) -> bool {
    exists|i: int| 0 <= i < 2 && (#[trigger] tiles[i]).os == os && tiles[i].present
}

/// Prepares booting `os`: when a tile shows it with its loader present,
/// records it as `last` and gives the loader to chainload (the caller saves
/// the configuration first); otherwise changes nothing and gives `None`.
pub fn boot_os(os: Os, tiles: &[Tile; 2], cfg: &mut Config) -> (loader: Option<&'static str>)
    ensures
        bootable(tiles@, os) ==> {
            &&& loader matches Some(p) && p@ == loader_of(os)
            &&& *final(cfg) == (Config { last: Some(os), ..*old(cfg) })
        },
        !bootable(tiles@, os) ==> loader is None && *final(cfg) == *old(cfg),
{
    let found = (tiles[0].os == os && tiles[0].present) || (tiles[1].os == os && tiles[1].present);
    proof {
        if bootable(tiles@, os) {
            let i = choose|i: int| 0 <= i < 2 && (#[trigger] tiles@[i]).os == os && tiles@[i].present;
            assert(i == 0 || i == 1);
        }
        if found {
            if tiles@[0].os == os && tiles@[0].present {
                assert(bootable(tiles@, os));
            } else {
                assert(tiles@[1].os == os && tiles@[1].present);
                assert(bootable(tiles@, os));
            }
        }
    }
    if !found {
        return None;
    }
    cfg.last = Some(os);
    Some(loader_path(os))
}

/// Without graphics the picker boots the configured default: records it as
/// `last` and gives its loader.
pub fn fallback_boot(cfg: &mut Config) -> (loader: &'static str)
    ensures
        loader@ == loader_of(old(cfg).default),
        *final(cfg) == (Config { last: Some(old(cfg).default), ..*old(cfg) }),
{
    cfg.last = Some(cfg.default);
    loader_path(cfg.default)
}

/// The notice shown when a chainload fails, on a `w × h` canvas.
pub open spec fn failure_ops(w: int, h: int) -> Seq<OpView> {
    seq![
        OpView::Gradient { top: c_bg_top(), bottom: c_bg_bottom() },
        OpView::Centered {
            x: 0,
            w,
            y: div_trunc(h, 2) - 16,
            text: "Failed to start that OS \u{2014} its loader may be missing."@,
            size: Size::H3,
            weight: Weight::Bold,
            color: c_destructive(),
        },
    ]
}

/// The operations of the notice shown when a chainload fails (see
/// [`failure_ops`]).
pub fn boot_failure(w: usize, h: usize) -> (ops: Vec<DrawOp>)
    requires
        w <= i32::MAX,
        h <= i32::MAX,
    ensures
        op_views(ops@) == failure_ops(w as int, h as int),
{
    let mut ops: Vec<DrawOp> = Vec::new();
    ops.push(DrawOp::Gradient { top: bg_top(), bottom: bg_bottom() });
    ops.push(
        DrawOp::Centered {
            x: 0,
            w: w as i32,
            y: h as i32 / 2 - 16,
            text: owned("Failed to start that OS \u{2014} its loader may be missing."),
            size: Size::H3,
            weight: Weight::Bold,
            color: destructive(),
        },
    );
    proof {
        assert(op_views(ops@) =~= failure_ops(w as int, h as int));
    }
    ops
}

// --- Laws -----------------------------------------------------------------------

/// The state and configuration after a run of events, in order.
pub open spec fn after_events(evs: Seq<Event>, st: State, cfg: Config, tiles: Seq<Tile>) -> (State, Config)
    decreases evs.len(),
{
    if evs.len() == 0 {
        (st, cfg)
    } else {
        let (s1, c1) = after_events(evs.drop_last(), st, cfg, tiles);
        let r = after_event(evs.last(), s1, c1, tiles);
        (r.0, r.1)
    }
}

/// Whatever the user presses, in any order, the highlight stays on one of
/// the two tiles.
pub proof fn law_highlight_stays_on_a_tile(evs: Seq<Event>, st: State, cfg: Config, tiles: Seq<Tile>)
    requires
        st.sel < 2,
    ensures
        after_events(evs, st, cfg, tiles).0.sel < 2,
    decreases evs.len(),
{
    if evs.len() > 0 {
        law_highlight_stays_on_a_tile(evs.drop_last(), st, cfg, tiles);
    }
}

/// Any input stops the auto-boot countdown, and no later second without
/// input restarts it.
pub proof fn law_input_stops_countdown(ev: Event, st: State, cfg: Config, tiles: Seq<Tile>)
    ensures
        after_event(ev, st, cfg, tiles).0.countdown is None,
        ticked(after_event(ev, st, cfg, tiles).0) == (after_event(ev, st, cfg, tiles).0, None::<Os>),
{
}

/// The state after `k` seconds without input, and whether any of them booted.
pub open spec fn ticks(st: State, k: nat) -> (State, Option<Os>)
    decreases k,
{
    if k == 0 {
        (st, None)
    } else {
        let (s1, b) = ticks(st, (k - 1) as nat);
        if b is Some {
            (s1, b)
        } else {
            ticked(s1)
        }
    }
}

/// A countdown of `n` seconds left alone counts down one second at a time and
/// boots the default OS exactly when the `n`-th second has passed.
pub proof fn law_countdown_boots_default(st: State, n: u8, k: nat)
    requires
        st.countdown == Some(n),
        n >= 1,
        k <= n,
    ensures
        k < n ==> ticks(st, k) == ((State { countdown: Some((n - k) as u8), ..st }), None::<Os>),
        k == n ==> ticks(st, k) == ((State { countdown: None, ..st }), Some(st.default)),
    decreases k,
{
    if k > 0 {
        law_countdown_boots_default(st, n, (k - 1) as nat);
    }
}

/// Pressing Y and saving makes the highlighted OS the default that the
/// picker reads back at the next start.
pub proof fn law_set_default_is_saved(st: State, cfg: Config, tiles: Seq<Tile>)
    requires
        st.sel < 2,
    ensures
        Config::parsed(after_event(Event::SetDefault, st, cfg, tiles).1.text()).default
            == tiles[st.sel as int].os,
        after_event(Event::SetDefault, st, cfg, tiles).0.default == tiles[st.sel as int].os,
{
    crate::config::law_text_round_trip(after_event(Event::SetDefault, st, cfg, tiles).1);
}

/// Select boots the highlighted tile's OS when its loader is on the ESP, and
/// otherwise only redraws; either way the highlight, the default and the
/// configuration stay as they were.
pub proof fn law_select_boots_the_highlighted_os(st: State, cfg: Config, tiles: Seq<Tile>)
    requires
        st.sel < 2,
    ensures
        tiles[st.sel as int].present ==> after_event(Event::Select, st, cfg, tiles).2 == Command::Boot(
            tiles[st.sel as int].os,
        ),
        !tiles[st.sel as int].present ==> after_event(Event::Select, st, cfg, tiles).2 == Command::Redraw,
        after_event(Event::Select, st, cfg, tiles).0.sel == st.sel,
        after_event(Event::Select, st, cfg, tiles).0.default == st.default,
        after_event(Event::Select, st, cfg, tiles).1 == cfg,
{
}

/// Back asks for the firmware's setup screen and changes nothing else but
/// the countdown; Prev and Next move the highlight one tile, stopping at the
/// first and the last.
pub proof fn law_back_and_moves(st: State, cfg: Config, tiles: Seq<Tile>)
    requires
        st.sel < 2,
    ensures
        after_event(Event::Back, st, cfg, tiles).2 == Command::Firmware,
        after_event(Event::Back, st, cfg, tiles).0.sel == st.sel,
        after_event(Event::Back, st, cfg, tiles).1 == cfg,
        after_event(Event::Prev, st, cfg, tiles).0.sel == 0,
        after_event(Event::Next, st, cfg, tiles).0.sel == 1,
        after_event(Event::Prev, st, cfg, tiles).2 == Command::Redraw,
        after_event(Event::Next, st, cfg, tiles).2 == Command::Redraw,
        after_event(Event::Prev, st, cfg, tiles).1 == cfg,
        after_event(Event::Next, st, cfg, tiles).1 == cfg,
{
}

/// Whether `ops` ends with the default badge: the accent dot, then the word
/// "DEFAULT" in the accent colour.
pub open spec fn ends_with_default_badge(ops: Seq<OpView>) -> bool {
    &&& ops.len() >= 2
    &&& ops[ops.len() - 2] matches OpView::Circle { color, .. } && color == c_accent()
    &&& ops[ops.len() - 1] matches OpView::Text { text, color, .. } && text == "DEFAULT"@ && color
        == c_accent()
}

/// A tile whose OS is present and the default shows the default badge,
/// focused or not; a tile that is not the default, or whose OS is missing,
/// draws no plain text at all (its only texts are its centred title,
/// subtitle and, when missing, the "NOT INSTALLED" notice).
pub proof fn law_default_tile_shows_its_badge(x: int, y: int, tile: Tile, focused: bool, is_default: bool)
    ensures
        tile.present ==> ends_with_default_badge(tile_ops(x, y, tile, focused, true)),
        forall|k: int|
            0 <= k < tile_ops(x, y, tile, focused, is_default).len() && (#[trigger] tile_ops(
                x,
                y,
                tile,
                focused,
                is_default,
            )[k]) is Text ==> tile.present && is_default,
        !tile.present ==> (tile_ops(x, y, tile, focused, is_default).last() matches OpView::Centered {
            text,
            color,
            ..
        } && text == "NOT INSTALLED"@ && color == c_destructive()),
{
    let ops = tile_ops(x, y, tile, focused, is_default);
    let nb: int = if focused { 2 } else { 1 };
    assert(ops.len() == 4 + nb + (if !tile.present { 1int } else if is_default { 2int } else { 0int }));
    assert forall|k: int| 0 <= k < ops.len() && (#[trigger] ops[k]) is Text implies tile.present
        && is_default by {
        if !(tile.present && is_default) {
            assert(k < 4 + nb + 1);
            if k == 0 {
            } else if k < 1 + nb {
            } else if k == 1 + nb {
            } else if k < 4 + nb {
            } else {
            }
        }
    }
}

/// The only plain text a tile draws is its "DEFAULT" label, last, inside the
/// tile's unfocused column `[x, x + TILE_W)`, and only when its OS is present
/// and the default.
proof fn lemma_tile_default_text(x: int, y: int, tile: Tile, focused: bool, is_default: bool)
    ensures
        forall|k: int|
            0 <= k < tile_ops(x, y, tile, focused, is_default).len() && (#[trigger] tile_ops(
                x,
                y,
                tile,
                focused,
                is_default,
            )[k]) is Text ==> {
                &&& tile.present && is_default
                &&& k == tile_ops(x, y, tile, focused, is_default).len() - 1
            },
        tile.present && is_default ==> (tile_ops(x, y, tile, focused, is_default).last() matches OpView::Text {
            x: tx,
            text,
            color,
            ..
        } && text == "DEFAULT"@ && color == c_accent() && x <= tx < x + TILE_W),
{
    reveal_strlit("DEFAULT");
    law_default_tile_shows_its_badge(x, y, tile, focused, is_default);
    let ops = tile_ops(x, y, tile, focused, is_default);
    let nb: int = if focused { 2 } else { 1 };
    assert forall|k: int| 0 <= k < ops.len() && (#[trigger] ops[k]) is Text implies k == ops.len() - 1 by {
        if k < ops.len() - 1 {
            if k == 0 {
            } else if k < 1 + nb {
            } else if k == 1 + nb {
            } else if k < 4 + nb {
            } else {
            }
        }
    }
}

/// The horizontal position of tile `i`'s unfocused column in a frame `w`
/// pixels wide.
pub open spec fn tile_column(w: int, i: int) -> int {
    div_trunc(w - (TILE_W * 2 + GAP), 2) + i * (TILE_W + GAP)
}

/// Whether `op` is plain text reading "DEFAULT".
pub open spec fn is_default_text(op: OpView) -> bool {
    op matches OpView::Text { text, .. } && text == "DEFAULT"@
}

/// Whether `op` is the "DEFAULT" label, drawn in the column starting at `cx`.
pub open spec fn default_label_in(op: OpView, cx: int) -> bool {
    op matches OpView::Text { x, text, .. } && text == "DEFAULT"@ && cx <= x < cx + TILE_W
}

/// The frame labels the default OS's tile "DEFAULT" whether or not it is
/// highlighted, as long as its OS is present; and every "DEFAULT" label in
/// the frame lies in the column of such a tile.
pub proof fn law_frame_labels_the_default(w: int, h: int, tiles: Seq<Tile>, st: State)
    ensures
        tiles[0].present && tiles[0].os == st.default ==> exists|k: int|
            0 <= k < frame_ops(w, h, tiles, st).len() && default_label_in(
                #[trigger] frame_ops(w, h, tiles, st)[k],
                tile_column(w, 0),
            ),
        tiles[1].present && tiles[1].os == st.default ==> exists|k: int|
            0 <= k < frame_ops(w, h, tiles, st).len() && default_label_in(
                #[trigger] frame_ops(w, h, tiles, st)[k],
                tile_column(w, 1),
            ),
        forall|k: int|
            0 <= k < frame_ops(w, h, tiles, st).len() && is_default_text(
                #[trigger] frame_ops(w, h, tiles, st)[k],
            ) ==> {
                ||| tiles[0].present && tiles[0].os == st.default && default_label_in(
                    frame_ops(w, h, tiles, st)[k],
                    tile_column(w, 0),
                )
                ||| tiles[1].present && tiles[1].os == st.default && default_label_in(
                    frame_ops(w, h, tiles, st)[k],
                    tile_column(w, 1),
                )
            },
{
    reveal_strlit("DEFAULT");
    reveal_strlit("Boot");
    reveal_strlit("Firmware Setup");
    reveal_strlit("Set Default");
    let f = frame_ops(w, h, tiles, st);
    let x0 = tile_column(w, 0);
    let x1 = tile_column(w, 1);
    let d0 = tiles[0].os == st.default;
    let d1 = tiles[1].os == st.default;
    let a = tile_ops(x0, TOP as int, tiles[0], st.sel == 0, d0);
    let b = tile_ops(x1, TOP as int, tiles[1], st.sel == 1, d1);
    lemma_tile_default_text(x0, TOP as int, tiles[0], st.sel == 0, d0);
    lemma_tile_default_text(x1, TOP as int, tiles[1], st.sel == 1, d1);
    let hdr = f.subrange(0, 3);
    let rest = f.subrange((3 + a.len() + b.len()) as int, f.len() as int);
    assert(f =~= hdr + a + b + rest);
    if tiles[0].present && d0 {
        let k = 3 + a.len() - 1;
        assert(f[k] == a[a.len() - 1]);
        assert(default_label_in(f[k], x0));
    }
    if tiles[1].present && d1 {
        let k = 3 + a.len() + b.len() - 1;
        assert(f[k] == b[b.len() - 1]);
        assert(default_label_in(f[k], x1));
    }
    assert forall|k: int|
        0 <= k < f.len() && is_default_text(#[trigger] f[k]) implies {
            ||| tiles[0].present && d0 && default_label_in(f[k], x0)
            ||| tiles[1].present && d1 && default_label_in(f[k], x1)
        } by {
        if k < 3 {
        } else if k < 3 + a.len() {
            assert(f[k] == a[k - 3]);
        } else if k < 3 + a.len() + b.len() {
            assert(f[k] == b[k - 3 - a.len()]);
        } else {
            assert(f[k] == rest[k - 3 - a.len() - b.len()]);
            assert("Boot"@ != "DEFAULT"@);
            assert("Firmware Setup"@ != "DEFAULT"@);
            assert("Set Default"@ != "DEFAULT"@);
        }
    }
}

} // verus!
