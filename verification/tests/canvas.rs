use steamdualboot::canvas::{border_mask, borrow_rows, choose_mode, clamp_radius, corner_at, Canvas, Corner, Pixel};
use steamdualboot::theme::Bgra;

const BLACK: Pixel = Pixel { blue: 0, green: 0, red: 0 };

fn px(c: Bgra) -> Pixel {
    Pixel { blue: c.b, green: c.g, red: c.r }
}

fn at(c: &Canvas, x: usize, y: usize) -> Pixel {
    c.buffer()[y * c.w + x]
}

#[test]
fn new_canvas_is_black() {
    let c = Canvas::new(3, 2);
    assert_eq!((c.w, c.h), (3, 2));
    assert_eq!(c.buffer().len(), 6);
    assert!(c.buffer().iter().all(|p| *p == BLACK));
}

#[test]
fn put_ignores_positions_off_the_canvas() {
    let mut c = Canvas::new(3, 2);
    let red = Bgra::hex(0xFF0000);
    c.put(2, 1, red);
    c.put(3, 0, red);
    c.put(0, 2, red);
    assert_eq!(at(&c, 2, 1), Pixel { blue: 0, green: 0, red: 255 });
    assert_eq!(c.buffer().iter().filter(|p| **p != BLACK).count(), 1);
}

#[test]
fn blend_mixes_by_opacity() {
    let mut c = Canvas::new(2, 1);
    c.put(0, 0, Bgra::hex(0x0000FF));
    c.blend(0, 0, Bgra::hex(0xFF0000), 128);
    // red: (255*128 + 0*127)/255 = 128; blue: (0*128 + 255*127)/255 = 127
    assert_eq!(at(&c, 0, 0), Pixel { blue: 127, green: 0, red: 128 });
    c.blend(1, 0, Bgra::hex(0x10FF20), 255);
    assert_eq!(at(&c, 1, 0), px(Bgra::hex(0x10FF20)));
    c.blend(5, 5, Bgra::hex(0xFFFFFF), 255);
}

#[test]
fn clear_and_gradient() {
    let mut c = Canvas::new(2, 3);
    c.clear(Bgra::hex(0x102030));
    assert!(c.buffer().iter().all(|p| *p == Pixel { blue: 0x30, green: 0x20, red: 0x10 }));
    let top = Bgra::hex(0x000000);
    let bottom = Bgra::hex(0xFFFFFF);
    c.gradient_v(top, bottom);
    // Row y gets t = y*255/3: 0, 85, 170.
    assert_eq!(at(&c, 0, 0), BLACK);
    assert_eq!(at(&c, 1, 1), Pixel { blue: 85, green: 85, red: 85 });
    assert_eq!(at(&c, 0, 2), Pixel { blue: 170, green: 170, red: 170 });
}

#[test]
fn fill_rect_clips_to_the_canvas() {
    let mut c = Canvas::new(4, 4);
    let g = Bgra::hex(0x00FF00);
    c.fill_rect(-1, 2, 3, 5, g);
    for y in 0..4 {
        for x in 0..4 {
            let inside = x < 2 && y >= 2;
            assert_eq!(at(&c, x, y) == px(g), inside, "({x},{y})");
        }
    }
}

#[test]
fn round_rect_paints_through_coverage() {
    let mut c = Canvas::new(3, 3);
    c.clear(Bgra::hex(0x000000));
    let rows: [&[u8]; 2] = [&[0, 255], &[128, 255]];
    let white = Bgra::hex(0xFFFFFF);
    c.round_rect(1, 1, 2, 2, 1, &rows, white);
    assert_eq!(at(&c, 1, 1), BLACK);
    assert_eq!(at(&c, 2, 1), px(white));
    assert_eq!(at(&c, 1, 2), Pixel { blue: 128, green: 128, red: 128 });
    assert_eq!(at(&c, 2, 2), px(white));
    assert_eq!(at(&c, 0, 0), BLACK);
}

#[test]
fn coverage_off_the_canvas_is_skipped() {
    let mut c = Canvas::new(2, 2);
    let rows: [&[u8]; 2] = [&[255, 255, 255], &[255, 255, 255]];
    let w = Bgra::hex(0xFFFFFF);
    c.round_rect(-2, 1, 3, 2, 0, &rows, w);
    assert_eq!(at(&c, 0, 1), px(w));
    assert_eq!(at(&c, 1, 1), BLACK);
    assert_eq!(at(&c, 0, 0), BLACK);
}

#[test]
fn fill_circle_centres_its_box() {
    let mut c = Canvas::new(4, 4);
    let rows: [&[u8]; 2] = [&[255, 255], &[255, 255]];
    let w = Bgra::hex(0xFFFFFF);
    c.fill_circle(2, 2, 1, &rows, w);
    let painted: Vec<(usize, usize)> =
        (0..4).flat_map(|y| (0..4).map(move |x| (x, y))).filter(|&(x, y)| at(&c, x, y) != BLACK).collect();
    assert_eq!(painted, vec![(1, 1), (2, 1), (1, 2), (2, 2)]);
}

#[test]
fn border_is_outer_minus_inset_inner() {
    let outer: [&[u8]; 3] = [&[255, 255, 255], &[255, 255, 255], &[10, 255, 200]];
    let inner: [&[u8]; 1] = [&[250]];
    let m = border_mask(&outer, &inner, 1);
    assert_eq!(m, vec![vec![255, 255, 255], vec![255, 5, 255], vec![10, 255, 200]]);
    let rows = borrow_rows(&m);
    assert_eq!(rows.len(), 3);
    assert_eq!(rows[1], &[255u8, 5, 255][..]);
    // Inner stronger than outer leaves nothing.
    let inner2: [&[u8]; 2] = [&[255, 255], &[255, 255]];
    let m2 = border_mask(&outer, &inner2, 1);
    assert_eq!(m2[2], vec![10, 0, 0]);
}

#[test]
fn round_border_draws_the_ring() {
    let mut c = Canvas::new(3, 3);
    let outer: [&[u8]; 3] = [&[255, 255, 255], &[255, 255, 255], &[255, 255, 255]];
    let inner: [&[u8]; 1] = [&[255]];
    let a = Bgra::hex(0x1A9FFF);
    c.round_border(0, 0, 3, 3, 0, 1, &outer, &inner, a);
    assert_eq!(at(&c, 1, 1), BLACK);
    assert_eq!(at(&c, 0, 0), px(a));
    assert_eq!(at(&c, 2, 2), px(a));
}

#[test]
fn round_rect_interior_is_solid_whatever_the_edge() {
    let mut c = Canvas::new(10, 10);
    let g = Bgra::hex(0x2A2F3A);
    let none: [&[u8]; 0] = [];
    c.round_rect(0, 0, 10, 10, 3, &none, g);
    // Between the corner squares every pixel is filled.
    assert_eq!(at(&c, 5, 5), px(g));
    assert_eq!(at(&c, 0, 5), px(g));
    assert_eq!(at(&c, 3, 0), px(g));
    assert_eq!(at(&c, 9, 6), px(g));
    // Corner squares take the edge's coverage, here none.
    assert_eq!(at(&c, 0, 0), BLACK);
    assert_eq!(at(&c, 9, 9), BLACK);
}

#[test]
fn round_rect_without_radius_is_a_plain_fill() {
    let g = Bgra::hex(0x00FF00);
    let none: [&[u8]; 0] = [];
    let mut a = Canvas::new(6, 5);
    a.round_rect(-1, 2, 4, 9, 0, &none, g);
    let mut b = Canvas::new(6, 5);
    b.fill_rect(-1, 2, 4, 9, g);
    assert!(a.buffer() == b.buffer());
    let mut n = Canvas::new(6, 5);
    n.round_rect(1, 1, 3, 3, -4, &none, g);
    assert_eq!(at(&n, 1, 1), px(g));
    assert_eq!(at(&n, 3, 3), px(g));
    assert_eq!(at(&n, 4, 3), BLACK);
}

#[test]
fn round_border_leaves_the_inside() {
    let mut c = Canvas::new(12, 12);
    let grey = Bgra::hex(0x646464);
    c.clear(grey);
    let a = Bgra::hex(0x1A9FFF);
    let outer = vec![vec![255u8; 10]; 10];
    let inner = vec![vec![255u8; 8]; 8];
    let o = borrow_rows(&outer);
    let i = borrow_rows(&inner);
    c.round_border(1, 1, 10, 10, 3, 1, &o, &i, a);
    for y in 0..12 {
        for x in 0..12 {
            let inside = (2..10).contains(&x) && (4..8).contains(&y);
            let outside = !(1..11).contains(&x) || !(1..11).contains(&y);
            if inside || outside {
                assert_eq!(at(&c, x, y), px(grey), "({x},{y})");
            }
        }
    }
    // The ring itself is drawn.
    assert_eq!(at(&c, 1, 5), px(a));
    assert_eq!(at(&c, 10, 6), px(a));
    assert_eq!(at(&c, 5, 1), px(a));
}

#[test]
fn clamp_radius_bounds() {
    assert_eq!(clamp_radius(340, 420, 12), 12);
    assert_eq!(clamp_radius(30, 30, 15), 15);
    assert_eq!(clamp_radius(10, 40, 12), 5);
    assert_eq!(clamp_radius(40, 7, 12), 3);
    assert_eq!(clamp_radius(40, 40, -3), 0);
    assert_eq!(clamp_radius(-5, 40, 3), 0);
}

#[test]
fn mode_choice_prefers_native_then_largest() {
    assert_eq!(choose_mode(&[]), None);
    assert_eq!(choose_mode(&[(640, 480), (1920, 1080), (1280, 800), (2560, 1600)]), Some(2));
    assert_eq!(choose_mode(&[(640, 480), (1920, 1080), (1080, 1920), (800, 600)]), Some(1));
    assert_eq!(choose_mode(&[(800, 600)]), Some(0));
}

#[test]
fn blit_composites_premultiplied_pixels() {
    let mut c = Canvas::new(2, 2);
    c.clear(Bgra::hex(0x646464));
    // 2×1 image: a transparent pixel, then half-transparent premultiplied (b=10,g=20,r=30,a=128).
    let img = [0u8, 0, 0, 0, 10, 20, 30, 128];
    c.blit_bgra(0, 1, 2, 1, &img);
    assert_eq!(at(&c, 0, 1), Pixel { blue: 100, green: 100, red: 100 });
    // 100*(255-128)/255 = 49
    assert_eq!(at(&c, 1, 1), Pixel { blue: 59, green: 69, red: 79 });
    assert_eq!(at(&c, 1, 0), Pixel { blue: 100, green: 100, red: 100 });
}

#[test]
fn blit_saturates() {
    let mut c = Canvas::new(1, 1);
    c.clear(Bgra::hex(0xFFFFFF));
    c.blit_bgra(0, 0, 1, 1, &[200, 200, 200, 1]);
    assert_eq!(at(&c, 0, 0), Pixel { blue: 255, green: 255, red: 255 });
}

#[test]
fn corner_classification() {
    // 30×30 chip with radius 15: every position lies in a corner square.
    assert_eq!(corner_at(15, 15, 30, 30, 15), Corner::Arc { dx: 1, dy: 1 });
    assert_eq!(corner_at(14, 14, 30, 30, 15), Corner::Arc { dx: -1, dy: -1 });
    assert_eq!(corner_at(0, 0, 30, 30, 15), Corner::Arc { dx: -15, dy: -15 });
    assert_eq!(corner_at(29, 29, 30, 30, 15), Corner::Arc { dx: 15, dy: 15 });
    assert_eq!(corner_at(29, 0, 30, 30, 15), Corner::Arc { dx: 15, dy: -15 });
    // A straight edge between the corners is solid.
    assert_eq!(corner_at(5, 100, 340, 420, 12), Corner::Inside);
    assert_eq!(corner_at(-1, 0, 30, 30, 15), Corner::Outside);
    assert_eq!(corner_at(30, 0, 30, 30, 15), Corner::Outside);
    assert_eq!(corner_at(0, 0, 30, 30, 0), Corner::Inside);
}
