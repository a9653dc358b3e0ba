use steamdualboot::canvas::{Canvas, Pixel};
use steamdualboot::config::Os;
use steamdualboot::frame::{perform_op, perform_ops};
use steamdualboot::picker::{draw_footer, draw_tile, render, DrawOp, Logo, State, Tile};
use steamdualboot::text::{draw, Size, Weight};
use steamdualboot::theme::Bgra;

fn logo() -> &'static Logo {
    let px: &'static [u8] = Box::leak(vec![255u8; 8 * 8 * 4].into_boxed_slice());
    Box::leak(Box::new(Logo { w: 8, h: 8, bgra: px }))
}

fn tiles() -> [Tile; 2] {
    [
        Tile { os: Os::SteamOs, title: "SteamOS", subtitle: "Linux · Gaming", logo: logo(), present: true },
        Tile { os: Os::Windows, title: "Windows 11", subtitle: "Microsoft", logo: logo(), present: false },
    ]
}

fn solid(w: i32, h: i32) -> Vec<Vec<u8>> {
    vec![vec![255u8; w.max(0) as usize]; h.max(0) as usize]
}

/// Full-coverage masks of each operation's size (the real ones are anti-aliased).
fn masks(ops: &[DrawOp]) -> (Vec<Vec<Vec<u8>>>, Vec<Vec<Vec<u8>>>) {
    let mut shapes = Vec::new();
    let mut inners = Vec::new();
    for op in ops {
        let (s, i) = match op {
            DrawOp::RoundRect { w, h, .. } => (solid(*w, *h), vec![]),
            DrawOp::RoundBorder { w, h, t, .. } => (solid(*w, *h), solid(w - 2 * t, h - 2 * t)),
            DrawOp::Circle { r, .. } => (solid(2 * r, 2 * r), vec![]),
            _ => (vec![], vec![]),
        };
        shapes.push(s);
        inners.push(i);
    }
    (shapes, inners)
}

fn changed(a: &Canvas, b: &Canvas) -> Vec<(usize, usize)> {
    let mut v = Vec::new();
    for y in 0..a.h {
        for x in 0..a.w {
            if a.buffer()[y * a.w + x] != b.buffer()[y * b.w + x] {
                v.push((x, y));
            }
        }
    }
    v
}

#[test]
fn same_state_gives_the_same_frame() {
    let t = tiles();
    let st = State { sel: 1, default: Os::Windows, countdown: Some(3) };
    let ops = render(1280, 800, &t, &st);
    let (shapes, inners) = masks(&ops);
    let mut a = Canvas::new(1280, 800);
    let mut b = Canvas::new(1280, 800);
    b.clear(Bgra::hex(0x123456));
    b.fill_rect(100, 100, 300, 300, Bgra::hex(0xFF00FF));
    perform_ops(&mut a, &ops, &shapes, &inners);
    perform_ops(&mut b, &ops, &shapes, &inners);
    assert!(a.buffer() == b.buffer());
}

#[test]
fn tile_draws_only_inside_its_box() {
    let t = tiles();
    for (focused, is_default, tile) in [(true, true, &t[0]), (false, false, &t[1]), (false, true, &t[0])] {
        let mut ops = Vec::new();
        draw_tile(&mut ops, 300, 200, tile, focused, is_default);
        let (shapes, inners) = masks(&ops);
        let before = Canvas::new(1000, 700);
        let mut after = Canvas::new(1000, 700);
        perform_ops(&mut after, &ops, &shapes, &inners);
        let (x0, y0, x1, y1) = if focused { (288, 188, 652, 632) } else { (300, 200, 640, 620) };
        let diff = changed(&before, &after);
        assert!(!diff.is_empty());
        assert!(diff.iter().all(|&(x, y)| (x0..x1).contains(&x) && (y0..y1).contains(&y)));
    }
}

#[test]
fn footer_draws_only_in_its_band() {
    let mut ops = Vec::new();
    draw_footer(&mut ops, 1280, 800);
    let (shapes, inners) = masks(&ops);
    let before = Canvas::new(1280, 800);
    let mut after = Canvas::new(1280, 800);
    perform_ops(&mut after, &ops, &shapes, &inners);
    let x0 = (1280 - 453) / 2;
    let diff = changed(&before, &after);
    assert!(!diff.is_empty());
    assert!(diff.iter().all(|&(x, y)| (x0..x0 + 453).contains(&(x as i32)) && (744..774).contains(&y)));
}

#[test]
fn one_operation_at_a_time() {
    let mut c = Canvas::new(4, 4);
    let op = DrawOp::RoundRect { x: 1, y: 1, w: 2, h: 2, r: 0, color: Bgra::hex(0xFFFFFF) };
    perform_op(&mut c, &op, &solid(2, 2), &vec![]);
    let white = Pixel { blue: 255, green: 255, red: 255 };
    for y in 0..4 {
        for x in 0..4 {
            let inside = (1..3).contains(&x) && (1..3).contains(&y);
            assert_eq!(c.buffer()[y * 4 + x] == white, inside);
        }
    }
    let g = DrawOp::Gradient { top: Bgra::hex(0x000000), bottom: Bgra::hex(0x000000) };
    perform_op(&mut c, &g, &vec![], &vec![]);
    assert!(c.buffer().iter().all(|p| *p == Pixel { blue: 0, green: 0, red: 0 }));
}

#[test]
fn text_stays_in_its_line_box() {
    let mut c = Canvas::new(80, 60);
    draw(&mut c, 10, 20, "gjW|", Size::Body, Weight::Bold, Bgra::hex(0xFFFFFF));
    let before = Canvas::new(80, 60);
    let diff = changed(&before, &c);
    assert!(!diff.is_empty());
    assert!(diff.iter().all(|&(x, y)| (10..46).contains(&x) && (20..40).contains(&y)));
}
