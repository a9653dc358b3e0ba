use steamdualboot::canvas::{Canvas, Pixel};
use steamdualboot::text::{char_width, draw, draw_centered, line_height, measure, Size, Weight};
use steamdualboot::theme::Bgra;

const BLACK: Pixel = Pixel { blue: 0, green: 0, red: 0 };

fn lit(c: &Canvas) -> Vec<(usize, usize)> {
    let mut v = Vec::new();
    for y in 0..c.h {
        for x in 0..c.w {
            if c.buffer()[y * c.w + x] != BLACK {
                v.push((x, y));
            }
        }
    }
    v
}

#[test]
fn sizes_and_widths() {
    assert_eq!(line_height(Size::Body), 20);
    assert_eq!(line_height(Size::H3), 24);
    assert_eq!(line_height(Size::H2), 32);
    assert_eq!(Size::H3.height(), 24);
    assert_eq!(char_width(Size::Body, Weight::Regular), 9);
    assert_eq!(char_width(Size::H3, Weight::Bold), 11);
    assert_eq!(char_width(Size::H2, Weight::Bold), 14);
}

#[test]
fn measure_counts_characters_not_bytes() {
    assert_eq!(measure("DEFAULT", Size::Body, Weight::Bold), 63);
    assert_eq!(measure("Boot", Size::Body, Weight::Regular), 36);
    assert_eq!(measure("Linux · Gaming", Size::H2, Weight::Regular), 14 * 14);
    assert_eq!(measure("", Size::H3, Weight::Regular), 0);
}

#[test]
fn draw_stays_in_the_glyph_boxes_and_advances() {
    let mut c = Canvas::new(60, 40);
    let pen = draw(&mut c, 5, 3, "AB", Size::Body, Weight::Bold, Bgra::hex(0xFFFFFF));
    assert_eq!(pen, 5 + 18);
    let px = lit(&c);
    assert!(!px.is_empty());
    assert!(px.iter().all(|&(x, y)| (5..23).contains(&x) && (3..23).contains(&y)));
    // Both glyph boxes got ink.
    assert!(px.iter().any(|&(x, _)| x < 14));
    assert!(px.iter().any(|&(x, _)| x >= 14));
}

#[test]
fn blank_and_unknown_characters_only_advance() {
    let mut c = Canvas::new(40, 30);
    let pen = draw(&mut c, 0, 0, " \u{4e00}", Size::Body, Weight::Regular, Bgra::hex(0xFFFFFF));
    assert_eq!(pen, 18);
    assert!(lit(&c).is_empty());
}

#[test]
fn draw_clips_off_canvas() {
    let mut c = Canvas::new(10, 10);
    let pen = draw(&mut c, -20, -5, "WW", Size::Body, Weight::Bold, Bgra::hex(0xFFFFFF));
    assert_eq!(pen, -2);
    assert!(lit(&c).is_empty());
}

#[test]
fn centred_text_matches_manual_placement() {
    let mut a = Canvas::new(100, 30);
    draw_centered(&mut a, 0, 100, 2, "Hi", Size::Body, Weight::Regular, Bgra::hex(0xDCDEDF));
    let mut b = Canvas::new(100, 30);
    draw(&mut b, (100 - 18) / 2, 2, "Hi", Size::Body, Weight::Regular, Bgra::hex(0xDCDEDF));
    assert_eq!(a.buffer(), b.buffer());
    // Wider than the box: starts left of x, rounding toward zero.
    let mut d = Canvas::new(100, 30);
    draw_centered(&mut d, 10, 5, 2, "Hi", Size::Body, Weight::Regular, Bgra::hex(0xDCDEDF));
    let mut e = Canvas::new(100, 30);
    draw(&mut e, 10 + (5 - 18) / 2, 2, "Hi", Size::Body, Weight::Regular, Bgra::hex(0xDCDEDF));
    assert_eq!(d.buffer(), e.buffer());
}
