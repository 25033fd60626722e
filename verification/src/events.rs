//! Raw input events as the event source reports them, reduced to plain
//! values, and the intents that each of them stands for.

use vstd::prelude::*;
use crate::codes::{axis_codes, codes_for_axis, StickAxis};
use crate::digitizer::{axis_intents, axis_to_buttons};
use crate::offset::AxisOffset;

verus! {

/// What a controller reported.
#[derive(Clone, Copy, Debug)]
pub enum RawEvent {
    /// A controller was connected.
    Connected,
    /// A controller was disconnected.
    Disconnected,
    /// The event source withdrew an event.
    Dropped,
    /// The button with this raw code went down.
    ButtonPressed(u32),
    /// The button with this raw code came up.
    ButtonReleased(u32),
    /// An axis moved to a new deflection.
    AxisChanged(StickAxis, AxisOffset),
    /// Anything else; it drives no key.
    Other,
}

/// A raw event together with the identity of the controller it came from.
#[derive(Clone, Copy, Debug)]
pub struct PadEvent {
    pub pad_id: usize,
    pub event: RawEvent,
}

impl RawEvent {
    /// Whether the event tells of a controller that came or went, rather
    /// than of its buttons and sticks.
    pub open spec fn is_lifecycle(self) -> bool {
        self is Connected || self is Disconnected || self is Dropped
    }

    /// The press and release intents that the event stands for, in the order
    /// in which they take effect.
    pub open spec fn intents(self) -> Seq<(bool, u32)> {
        match self {
            RawEvent::ButtonPressed(code) => seq![(true, code)],
            RawEvent::ButtonReleased(code) => seq![(false, code)],
            RawEvent::AxisChanged(axis, offset) => match axis_codes(axis) {
                Some(codes) => axis_intents(offset, codes.0, codes.1),
                None => Seq::empty(),
            },
            _ => Seq::empty(),
        }
    }

    /// Tells whether the event is one of a controller that came or went.
    pub fn concerns_connection(&self) -> (lifecycle: bool)
        ensures
            lifecycle == self.is_lifecycle(),
    {
        match self {
            RawEvent::Connected | RawEvent::Disconnected | RawEvent::Dropped => true,
            _ => false,
        }
    }

    /// Reduces the event to its press and release intents.
    pub fn to_buttons(&self) -> (buttons: Vec<(bool, u32)>)
        ensures
            buttons@ == self.intents(),
    {
        let mut buttons: Vec<(bool, u32)> = Vec::with_capacity(8);
        match self {
            RawEvent::ButtonPressed(code) => buttons.push((true, *code)),
            RawEvent::ButtonReleased(code) => buttons.push((false, *code)),
            RawEvent::AxisChanged(axis, offset) => {
                match codes_for_axis(*axis) {
                    Some((positive_code, negative_code)) => {
                        axis_to_buttons(&mut buttons, *offset, positive_code, negative_code);
                    },
                    None => {},
                }
            },
            _ => {},
        }
        buttons
    }
}

} // verus!
