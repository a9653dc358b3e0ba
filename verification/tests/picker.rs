use steamdualboot::config::{Config, Os};
use steamdualboot::input::Event;
use steamdualboot::picker::{
    boot_failure, boot_os, draw_footer, draw_tile, fallback_boot, handle, hint_line, initial_state, loader_path,
    push_u8, render, tick, Command, DrawOp, Logo, State, Tile,
};
use steamdualboot::text::{Size, Weight};
use steamdualboot::theme::Bgra;

fn logo() -> &'static Logo {
    let px: &'static [u8] = Box::leak(vec![0u8; 4 * 4 * 4].into_boxed_slice());
    Box::leak(Box::new(Logo { w: 4, h: 4, bgra: px }))
}

fn tiles(steam_present: bool, windows_present: bool) -> [Tile; 2] {
    [
        Tile { os: Os::SteamOs, title: "SteamOS", subtitle: "Linux · Gaming", logo: logo(), present: steam_present },
        Tile { os: Os::Windows, title: "Windows 11", subtitle: "Microsoft", logo: logo(), present: windows_present },
    ]
}

fn rgb(v: u32) -> Bgra {
    Bgra::hex(v)
}

#[test]
fn starts_on_the_default_with_its_countdown() {
    let st = initial_state(&Config { default: Os::Windows, timeout: 5, last: None });
    assert_eq!(st, State { sel: 1, default: Os::Windows, countdown: Some(5) });
    let st = initial_state(&Config { default: Os::SteamOs, timeout: 0, last: Some(Os::Windows) });
    assert_eq!(st, State { sel: 0, default: Os::SteamOs, countdown: None });
}

#[test]
fn prev_and_next_stay_on_the_two_tiles() {
    let t = tiles(true, true);
    let mut cfg = Config::default();
    let mut st = State { sel: 0, default: Os::SteamOs, countdown: Some(3) };
    assert_eq!(handle(Event::Prev, &mut st, &mut cfg, &t), Command::Redraw);
    assert_eq!(st.sel, 0);
    assert_eq!(st.countdown, None);
    assert_eq!(handle(Event::Next, &mut st, &mut cfg, &t), Command::Redraw);
    assert_eq!(st.sel, 1);
    assert_eq!(handle(Event::Next, &mut st, &mut cfg, &t), Command::Redraw);
    assert_eq!(st.sel, 1);
    assert_eq!(handle(Event::Prev, &mut st, &mut cfg, &t), Command::Redraw);
    assert_eq!(st.sel, 0);
    assert_eq!(cfg, Config::default());
}

#[test]
fn select_boots_only_a_present_os() {
    let t = tiles(true, false);
    let mut cfg = Config::default();
    let mut st = State { sel: 1, default: Os::SteamOs, countdown: Some(4) };
    assert_eq!(handle(Event::Select, &mut st, &mut cfg, &t), Command::Redraw);
    assert_eq!(st.countdown, None);
    st.sel = 0;
    assert_eq!(handle(Event::Select, &mut st, &mut cfg, &t), Command::Boot(Os::SteamOs));
}

#[test]
fn set_default_updates_state_and_config() {
    let t = tiles(true, true);
    let mut cfg = Config { default: Os::SteamOs, timeout: 7, last: None };
    let mut st = State { sel: 1, default: Os::SteamOs, countdown: None };
    assert_eq!(handle(Event::SetDefault, &mut st, &mut cfg, &t), Command::Save);
    assert_eq!(st.default, Os::Windows);
    assert_eq!(cfg, Config { default: Os::Windows, timeout: 7, last: None });
    // What gets saved reads back with the new default.
    assert_eq!(Config::load(Some(cfg.to_text().as_bytes())).default, Os::Windows);
}

#[test]
fn back_enters_firmware() {
    let t = tiles(true, true);
    let mut cfg = Config::default();
    let mut st = State { sel: 0, default: Os::SteamOs, countdown: Some(2) };
    assert_eq!(handle(Event::Back, &mut st, &mut cfg, &t), Command::Firmware);
    assert_eq!(st, State { sel: 0, default: Os::SteamOs, countdown: None });
}

#[test]
fn countdown_boots_default_after_its_seconds() {
    let mut st = State { sel: 0, default: Os::Windows, countdown: Some(3) };
    assert_eq!(tick(&mut st), None);
    assert_eq!(st.countdown, Some(2));
    assert_eq!(tick(&mut st), None);
    assert_eq!(st.countdown, Some(1));
    assert_eq!(tick(&mut st), Some(Os::Windows));
    assert_eq!(st.countdown, None);
    // Stopped: nothing more happens.
    assert_eq!(tick(&mut st), None);
    assert_eq!(st.countdown, None);
}

#[test]
fn zero_second_countdown_boots_at_once() {
    let mut st = State { sel: 1, default: Os::SteamOs, countdown: Some(0) };
    assert_eq!(tick(&mut st), Some(Os::SteamOs));
}

#[test]
fn boot_records_last_only_when_loader_present() {
    let t = tiles(true, false);
    let mut cfg = Config { default: Os::SteamOs, timeout: 5, last: None };
    assert_eq!(boot_os(Os::Windows, &t, &mut cfg), None);
    assert_eq!(cfg.last, None);
    assert_eq!(boot_os(Os::SteamOs, &t, &mut cfg), Some("\\EFI\\steamos\\steamcl.efi"));
    assert_eq!(cfg, Config { default: Os::SteamOs, timeout: 5, last: Some(Os::SteamOs) });
}

#[test]
fn loader_paths() {
    assert_eq!(loader_path(Os::SteamOs), "\\EFI\\steamos\\steamcl.efi");
    assert_eq!(loader_path(Os::Windows), "\\EFI\\Microsoft\\Boot\\bootmgfw.efi");
}

#[test]
fn fallback_boots_the_default() {
    let mut cfg = Config { default: Os::Windows, timeout: 3, last: Some(Os::SteamOs) };
    assert_eq!(fallback_boot(&mut cfg), "\\EFI\\Microsoft\\Boot\\bootmgfw.efi");
    assert_eq!(cfg.last, Some(Os::Windows));
    assert_eq!(cfg.timeout, 3);
}

#[test]
fn push_u8_writes_decimal() {
    for (n, want) in [(0u8, "0"), (7, "7"), (42, "42"), (100, "100"), (255, "255")] {
        let mut s = String::from("x");
        push_u8(&mut s, n);
        assert_eq!(s, format!("x{want}"));
    }
}

#[test]
fn hint_line_counts_down_to_the_default() {
    let t = tiles(true, true);
    let st = State { sel: 0, default: Os::Windows, countdown: Some(5) };
    assert_eq!(hint_line(&t, &st), "Starting Windows 11 in 5s   ·   press any input to choose");
    let st = State { sel: 0, default: Os::Windows, countdown: None };
    assert_eq!(hint_line(&t, &st), "Highlight an OS and press A / Enter to boot");
}

#[test]
fn footer_is_centred_near_the_bottom() {
    let mut ops = Vec::new();
    draw_footer(&mut ops, 1280, 800);
    assert_eq!(ops.len(), 9);
    // total = (30+10+36+36) + (30+10+126+36) + (30+10+99+36) - 36 = 453
    let cx0 = (1280 - 453) / 2;
    assert_eq!(ops[0], DrawOp::RoundRect { x: cx0, y: 744, w: 30, h: 30, r: 15, color: rgb(0x5BA32B) });
    assert_eq!(
        ops[1],
        DrawOp::Centered {
            x: cx0,
            w: 30,
            y: 748,
            text: "A".to_string(),
            size: Size::Body,
            weight: Weight::Bold,
            color: rgb(0xFFFFFF)
        }
    );
    assert_eq!(
        ops[2],
        DrawOp::Text {
            x: cx0 + 40,
            y: 748,
            text: "Boot".to_string(),
            size: Size::Body,
            weight: Weight::Regular,
            color: rgb(0xDCDEDF)
        }
    );
    let cx1 = cx0 + 30 + 10 + 36 + 36;
    assert_eq!(ops[3], DrawOp::RoundRect { x: cx1, y: 744, w: 30, h: 30, r: 15, color: rgb(0xC0392B) });
    let cx2 = cx1 + 30 + 10 + 126 + 36;
    assert_eq!(ops[6], DrawOp::RoundRect { x: cx2, y: 744, w: 30, h: 30, r: 15, color: rgb(0xD4A017) });
}

#[test]
fn focused_default_tile_layout() {
    let t = tiles(true, true);
    let mut ops = Vec::new();
    draw_tile(&mut ops, 268, 196, &t[0], true, true);
    assert_eq!(ops.len(), 8);
    let lifted = rgb(0x23262E).scale(135);
    assert_eq!(ops[0], DrawOp::RoundRect { x: 258, y: 186, w: 360, h: 440, r: 12, color: lifted });
    assert_eq!(ops[1], DrawOp::RoundBorder { x: 256, y: 184, w: 364, h: 444, r: 14, t: 3, color: rgb(0x199FFF) });
    assert_eq!(ops[2], DrawOp::RoundBorder { x: 258, y: 186, w: 360, h: 440, r: 12, t: 1, color: rgb(0x1A9FFF) });
    assert_eq!(ops[3], DrawOp::Image { x: 258 + (360 - 4) / 2, y: 242, logo: t[0].logo });
    assert_eq!(
        ops[4],
        DrawOp::Centered {
            x: 258,
            w: 360,
            y: 466,
            text: "SteamOS".to_string(),
            size: Size::H2,
            weight: Weight::Bold,
            color: rgb(0xFFFFFF)
        }
    );
    // DEFAULT badge: dot + label, 5*2 + 10 + 7*9 = 83 wide, centred.
    let gx = 258 + (360 - 83) / 2;
    assert_eq!(ops[6], DrawOp::Circle { cx: gx + 5, cy: 186 + 440 - 44 + 10, r: 5, color: rgb(0x1A9FFF) });
    assert_eq!(
        ops[7],
        DrawOp::Text {
            x: gx + 20,
            y: 186 + 440 - 44,
            text: "DEFAULT".to_string(),
            size: Size::Body,
            weight: Weight::Bold,
            color: rgb(0x1A9FFF)
        }
    );
}

#[test]
fn missing_os_tile_is_flagged() {
    let t = tiles(true, false);
    let mut ops = Vec::new();
    draw_tile(&mut ops, 672, 196, &t[1], false, false);
    assert_eq!(ops.len(), 6);
    assert_eq!(ops[1], DrawOp::RoundBorder { x: 672, y: 196, w: 340, h: 420, r: 12, t: 1, color: rgb(0x3D4450) });
    assert_eq!(
        ops[5],
        DrawOp::Centered {
            x: 672,
            w: 340,
            y: 196 + 420 - 44,
            text: "NOT INSTALLED".to_string(),
            size: Size::Body,
            weight: Weight::Bold,
            color: rgb(0xDE3618)
        }
    );
}

#[test]
fn whole_frame_in_paint_order() {
    let t = tiles(true, true);
    let st = State { sel: 0, default: Os::SteamOs, countdown: None };
    let ops = render(1280, 800, &t, &st);
    // header 3, focused default tile 8, plain tile 5, hint 1, footer 9
    assert_eq!(ops.len(), 26);
    assert_eq!(ops[0], DrawOp::Gradient { top: rgb(0x212328), bottom: rgb(0x191A1E) });
    assert_eq!(
        ops[1],
        DrawOp::Centered {
            x: 0,
            w: 1280,
            y: 64,
            text: "STEAM DUALBOOT".to_string(),
            size: Size::Body,
            weight: Weight::Bold,
            color: rgb(0x1A9FFF)
        }
    );
    // Tiles centred: (1280 - 744) / 2 = 268; the focused one is lifted by 10.
    assert_eq!(ops[3], DrawOp::RoundRect { x: 258, y: 186, w: 360, h: 440, r: 12, color: rgb(0x23262E).scale(135) });
    assert_eq!(ops[11], DrawOp::RoundRect { x: 672, y: 196, w: 340, h: 420, r: 12, color: rgb(0x23262E) });
    assert_eq!(
        ops[16],
        DrawOp::Centered {
            x: 0,
            w: 1280,
            y: 664,
            text: "Highlight an OS and press A / Enter to boot".to_string(),
            size: Size::Body,
            weight: Weight::Regular,
            color: rgb(0x8B929A)
        }
    );
}

#[test]
fn failure_notice() {
    let ops = boot_failure(1280, 800);
    assert_eq!(ops.len(), 2);
    assert_eq!(
        ops[1],
        DrawOp::Centered {
            x: 0,
            w: 1280,
            y: 384,
            text: "Failed to start that OS — its loader may be missing.".to_string(),
            size: Size::H3,
            weight: Weight::Bold,
            color: rgb(0xDE3618)
        }
    );
}
