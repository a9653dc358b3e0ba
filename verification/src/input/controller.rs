//! The built-in controller's left stick and face buttons. Reading its HID
//! reports is not implemented, so polling it yields nothing and the keyboard
//! drives the picker; the stick decoding is ready for when it is.

use vstd::prelude::*;

use super::Event;

verus! {

/// Left-stick deadzone, in raw axis units.
pub const DEADZONE: i16 = 8192;

/// What polling the controller yields: nothing, since no report is read.
pub open spec fn controller_event() -> Option<Event> {
    None
}

/// Best-effort poll of the built-in gamepad.
pub fn poll() -> (r: Option<Event>)
    ensures
        r == controller_event(),
{
    None
}

/// The event for a left-stick X sample: past the deadzone to the left is
/// `Prev`, to the right `Next`, inside it nothing.
pub open spec fn stick_event(x: i16) -> Option<Event> {
    if x <= -DEADZONE {
        Some(Event::Prev)
    } else if x >= DEADZONE {
        Some(Event::Next)
    } else {
        None
    }
}

/// Maps a decoded left-stick X sample to a navigation event (edge-triggered
/// by the caller).
pub fn stick_x_to_event(x: i16) -> (r: Option<Event>)
    ensures
        r == stick_event(x),
{
    if x <= -DEADZONE {
        Some(Event::Prev)
    } else if x >= DEADZONE {
        Some(Event::Next)
    } else {
        None
    }
}

} // verus!
