//! Input for the boot picker: keys read from the firmware's text input
//! (arrows, Enter/Space, Esc, Y/B) become navigation events; the built-in
//! controller layer lives in [`controller`].

pub mod controller;

use vstd::prelude::*;

verus! {

/// A normalised navigation event, independent of which device produced it.
#[derive(Clone, Copy, PartialEq, Eq, Debug, Structural)]
pub enum Event {
    /// Left / up / stick-left: move the highlight.
    Prev,
    /// Right / down / stick-right: move the highlight.
    Next,
    /// A / Enter / Space: boot the highlighted OS.
    Select,
    /// B / Esc: firmware setup.
    Back,
    /// Y: make the highlighted OS the default.
    SetDefault,
}

/// A key as the firmware's Simple Text Input protocol reports it: a printable
/// character, or a special key identified by its UEFI scan code.
#[derive(Clone, Copy, PartialEq, Eq, Debug, Structural)]
pub enum Key {
    Printable(char),
    Special(u16),
}

/// UEFI scan code: cursor up.
pub const SCAN_UP: u16 = 0x01;
/// UEFI scan code: cursor down.
pub const SCAN_DOWN: u16 = 0x02;
/// UEFI scan code: cursor right.
pub const SCAN_RIGHT: u16 = 0x03;
/// UEFI scan code: cursor left.
pub const SCAN_LEFT: u16 = 0x04;
/// UEFI scan code: escape.
pub const SCAN_ESCAPE: u16 = 0x17;

/// The event a key stands for, if any.
pub open spec fn key_event(k: Key) -> Option<Event> {
    match k {
        Key::Special(s) => if s == SCAN_LEFT || s == SCAN_UP {
            Some(Event::Prev)
        } else if s == SCAN_RIGHT || s == SCAN_DOWN {
            Some(Event::Next)
        } else if s == SCAN_ESCAPE {
            Some(Event::Back)
        } else {
            None
        },
        Key::Printable(c) => if c == '\r' || c == '\n' || c == ' ' {
            Some(Event::Select)
        } else if c == 'y' || c == 'Y' {
            Some(Event::SetDefault)
        } else if c == 'b' || c == 'B' {
            Some(Event::Back)
        } else {
            None
        },
    }
}

/// Maps the key just read from the keyboard (if any) to its event.
pub fn poll_keyboard(key: Option<Key>) -> (r: Option<Event>)
    ensures
        r == (match key {
            Some(k) => key_event(k),
            None => None,
        }),
{
    match key {
        None => None,
        Some(Key::Special(s)) => {
            if s == SCAN_LEFT || s == SCAN_UP {
                Some(Event::Prev)
            } else if s == SCAN_RIGHT || s == SCAN_DOWN {
                Some(Event::Next)
            } else if s == SCAN_ESCAPE {
                Some(Event::Back)
            } else {
                None
            }
        },
        Some(Key::Printable(c)) => {
            if c == '\r' || c == '\n' || c == ' ' {
                Some(Event::Select)
            } else if c == 'y' || c == 'Y' {
                Some(Event::SetDefault)
            } else if c == 'b' || c == 'B' {
                Some(Event::Back)
            } else {
                None
            }
        },
    }
}

/// Polls all input sources once, given the key the keyboard produced (if
/// any): the first event seen wins, the keyboard before the controller.
pub fn poll(key: Option<Key>) -> (r: Option<Event>)
    ensures
        r == (match key {
            Some(k) => match key_event(k) {
                Some(e) => Some(e),
                None => controller::controller_event(),
            },
            None => controller::controller_event(),
        }),
{
    match poll_keyboard(key) {
        Some(ev) => Some(ev),
        None => controller::poll(),
    }
}

} // verus!
