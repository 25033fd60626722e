//! The model of a run: the keys that are held and every transition that was
//! handed to the keyboard so far.

use vstd::prelude::*;
use crate::codes::slot_of;
use crate::events::{PadEvent, RawEvent};
use crate::keys::{slot_emission, slot_settle, KeyTransition};
use crate::layout::key_at;

verus! {

/// The transitions that one intent added to the output: the emitted one, or
/// none.
pub open spec fn emitted_seq(emitted: Option<KeyTransition>) -> Seq<KeyTransition> {
    match emitted {
        Some(transition) => seq![transition],
        None => Seq::empty(),
    }
}

/// The key that a raw code of a controller resolves to: the key of the slot
/// that the code stands for, where there is such a slot and the layout has a
/// key for it.
pub open spec fn code_key(rows: Seq<Seq<char>>, pad_id: int, code: u32) -> Option<char> {
    match slot_of(code) {
        Some(slot) => key_at(rows, pad_id, slot as int),
        None => None,
    }
}

/// Where a run stands: the held keys, and the transitions emitted so far in
/// the order of their emission.
pub struct Trace {
    pub held: Set<char>,
    pub log: Seq<KeyTransition>,
}

impl Trace {
    /// A run that begins with the keys `held` and has emitted nothing yet.
    pub open spec fn start(held: Set<char>) -> Trace {
        Trace { held, log: Seq::empty() }
    }

    /// The run after a press or release intent on a slot of a controller.
    pub open spec fn slot_intent(self, rows: Seq<Seq<char>>, pad_id: int, pressed: bool, slot: int) -> Trace {
        Trace {
            held: slot_settle(rows, self.held, pad_id, pressed, slot),
            log: self.log + emitted_seq(slot_emission(rows, self.held, pad_id, pressed, slot)),
        }
    }

    /// The run after a press or release intent on a raw code. A code that
    /// stands for no slot is passed over.
    pub open spec fn code_intent(self, rows: Seq<Seq<char>>, pad_id: int, pressed: bool, code: u32) -> Trace {
        match slot_of(code) {
            Some(slot) => self.slot_intent(rows, pad_id, pressed, slot as int),
            None => self,
        }
    }

    /// The run after a list of intents from one controller, taken in order.
    pub open spec fn intents(self, rows: Seq<Seq<char>>, pad_id: int, intents: Seq<(bool, u32)>) -> Trace
        decreases intents.len(),
    {
        if intents.len() == 0 {
            self
        } else {
            self.intents(rows, pad_id, intents.drop_last()).code_intent(
                rows,
                pad_id,
                intents.last().0,
                intents.last().1,
            )
        }
    }

    /// The run after one raw event of a controller.
    pub open spec fn event(self, rows: Seq<Seq<char>>, pad_id: int, event: RawEvent) -> Trace {
        self.intents(rows, pad_id, event.intents())
    }

    /// The run after a sequence of events, each from its own controller.
    pub open spec fn events(self, rows: Seq<Seq<char>>, events: Seq<PadEvent>) -> Trace
        decreases events.len(),
    {
        if events.len() == 0 {
            self
        } else {
            self.events(rows, events.drop_last()).event(
                rows,
                events.last().pad_id as int,
                events.last().event,
            )
        }
    }
}

} // verus!
