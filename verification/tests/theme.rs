use steamdualboot::theme::{accent, bg_top, glyph_y, surface_3, Bgra};

#[test]
fn hex_splits_channels() {
    assert_eq!(Bgra::hex(0x1A9FFF), Bgra { r: 0x1A, g: 0x9F, b: 0xFF });
    assert_eq!(accent(), Bgra::hex(0x1A9FFF));
    assert_eq!(bg_top(), Bgra { r: 0x21, g: 0x23, b: 0x28 });
    assert_eq!(glyph_y(), Bgra { r: 0xD4, g: 0xA0, b: 0x17 });
}

#[test]
fn lerp_endpoints_and_middle() {
    let a = Bgra::hex(0x000000);
    let b = Bgra::hex(0xFF8040);
    assert_eq!(a.lerp(b, 0), a);
    assert_eq!(a.lerp(b, 255), b);
    // (0*128 + 255*127)/255 = 127; (0*128 + 128*127)/255 = 63; (0*128 + 64*127)/255 = 31
    assert_eq!(a.lerp(b, 127), Bgra { r: 127, g: 63, b: 31 });
}

#[test]
fn scale_brightens_and_clamps() {
    let s = surface_3().scale(135);
    // 0x23=35 -> 47, 0x26=38 -> 51, 0x2E=46 -> 62
    assert_eq!(s, Bgra { r: 47, g: 51, b: 62 });
    assert_eq!(Bgra::hex(0xC8C8C8).scale(200), Bgra { r: 255, g: 255, b: 255 });
    assert_eq!(Bgra::hex(0x64FF00).scale(50), Bgra { r: 50, g: 127, b: 0 });
    assert_eq!(Bgra::hex(0xFFFFFF).scale(300), Bgra { r: 255, g: 255, b: 255 });
    assert_eq!(Bgra::hex(0x808080).scale(u16::MAX), Bgra { r: 255, g: 255, b: 255 });
    assert_eq!(Bgra::hex(0x23262E).scale(100), Bgra::hex(0x23262E));
    assert_eq!(Bgra::hex(0x23262E).scale(0), Bgra { r: 0, g: 0, b: 0 });
}
