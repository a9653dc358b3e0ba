use steamdualboot::input::controller::{poll as controller_poll, stick_x_to_event, DEADZONE};
use steamdualboot::input::{poll, poll_keyboard, Event, Key, SCAN_DOWN, SCAN_ESCAPE, SCAN_LEFT, SCAN_RIGHT, SCAN_UP};

#[test]
fn arrows_move_the_highlight() {
    assert_eq!(poll_keyboard(Some(Key::Special(SCAN_LEFT))), Some(Event::Prev));
    assert_eq!(poll_keyboard(Some(Key::Special(SCAN_UP))), Some(Event::Prev));
    assert_eq!(poll_keyboard(Some(Key::Special(SCAN_RIGHT))), Some(Event::Next));
    assert_eq!(poll_keyboard(Some(Key::Special(SCAN_DOWN))), Some(Event::Next));
    assert_eq!(poll_keyboard(Some(Key::Special(SCAN_ESCAPE))), Some(Event::Back));
    assert_eq!(poll_keyboard(Some(Key::Special(0x0B))), None);
}

#[test]
fn printable_keys() {
    for c in ['\r', '\n', ' '] {
        assert_eq!(poll_keyboard(Some(Key::Printable(c))), Some(Event::Select));
    }
    assert_eq!(poll_keyboard(Some(Key::Printable('y'))), Some(Event::SetDefault));
    assert_eq!(poll_keyboard(Some(Key::Printable('Y'))), Some(Event::SetDefault));
    assert_eq!(poll_keyboard(Some(Key::Printable('b'))), Some(Event::Back));
    assert_eq!(poll_keyboard(Some(Key::Printable('B'))), Some(Event::Back));
    assert_eq!(poll_keyboard(Some(Key::Printable('a'))), None);
    assert_eq!(poll_keyboard(None), None);
}

#[test]
fn poll_falls_back_to_the_silent_controller() {
    assert_eq!(poll(Some(Key::Printable('y'))), Some(Event::SetDefault));
    assert_eq!(poll(Some(Key::Printable('q'))), None);
    assert_eq!(poll(None), None);
    assert_eq!(controller_poll(), None);
}

#[test]
fn stick_deadzone() {
    assert_eq!(DEADZONE, 8192);
    assert_eq!(stick_x_to_event(-8192), Some(Event::Prev));
    assert_eq!(stick_x_to_event(i16::MIN), Some(Event::Prev));
    assert_eq!(stick_x_to_event(-8191), None);
    assert_eq!(stick_x_to_event(0), None);
    assert_eq!(stick_x_to_event(8191), None);
    assert_eq!(stick_x_to_event(8192), Some(Event::Next));
    assert_eq!(stick_x_to_event(i16::MAX), Some(Event::Next));
}
