//! The translation engine: from a raw event and the held keys to the new
//! held keys and the transitions to hand to the keyboard.

use vstd::prelude::*;
use crate::codes::normalize_code;
use crate::events::{PadEvent, RawEvent};
use crate::keys::{button_to_keyboard, KeyState, KeyTransition};
use crate::layout::KeyLayout;
use crate::trace::Trace;

verus! {

/// What the caller is to do after an event.
#[derive(Debug)]
pub struct Reaction {
    /// Whether the set of connected controllers changed, so that it is to be
    /// listed anew.
    pub list_controllers: bool,
    /// The transitions to hand to the keyboard, in this order.
    pub transitions: Vec<KeyTransition>,
}

/// Carries out a list of press and release intents of controller `pad_id`,
/// one after the other, and returns the transitions to hand to the keyboard.
/// An intent whose code stands for no slot is passed over.
pub fn press_buttons(
    pad_id: usize,
    buttons: &Vec<(bool, u32)>,
    layout: &KeyLayout,
    state: &mut KeyState,
) -> (emitted: Vec<KeyTransition>)
    requires
        layout.wf(),
        old(state).wf(),
    ensures
        final(state).wf(),
        final(state)@ == Trace::start(old(state)@).intents(layout@, pad_id as int, buttons@).held,
        emitted@ == Trace::start(old(state)@).intents(layout@, pad_id as int, buttons@).log,
{
    let ghost begin = Trace::start(state@);
    let mut emitted: Vec<KeyTransition> = Vec::new();
    let mut done: usize = 0;
    while done < buttons.len()
        invariant
            done <= buttons.len(),
            layout.wf(),
            state.wf(),
            begin.intents(layout@, pad_id as int, buttons@.take(done as int)) == (Trace {
                held: state@,
                log: emitted@,
            }),
        decreases buttons.len() - done,
    {
        let (pad_set, pad_code) = buttons[done];
        let ghost before = Trace { held: state@, log: emitted@ };
        match normalize_code(pad_code) {
            Some(pad_letter) => {
                match button_to_keyboard(pad_id, pad_set, pad_letter, layout, state) {
                    Some(transition) => {
                        emitted.push(transition);
                    },
                    None => {},
                }
            },
            None => {},
        }
        proof {
            let next = buttons@.take(done + 1);
            assert(next.drop_last() =~= buttons@.take(done as int));
            assert(next.last() == (pad_set, pad_code));
            let after = before.code_intent(layout@, pad_id as int, pad_set, pad_code);
            assert(begin.intents(layout@, pad_id as int, next) == after);
            assert(after.log =~= emitted@);
        }
        done = done + 1;
    }
    assert(buttons@.take(done as int) =~= buttons@);
    emitted
}

/// Translates one raw event: brings the held keys up to date and tells the
/// caller what to do. An event of a controller that came or went asks for
/// the controllers to be listed and touches no key.
pub fn translate_event(event: &PadEvent, layout: &KeyLayout, state: &mut KeyState) -> (reaction:
    Reaction)
    requires
        layout.wf(),
        old(state).wf(),
    ensures
        final(state).wf(),
        reaction.list_controllers == event.event.is_lifecycle(),
        final(state)@ == Trace::start(old(state)@).event(
            layout@,
            event.pad_id as int,
            event.event,
        ).held,
        reaction.transitions@ == Trace::start(old(state)@).event(
            layout@,
            event.pad_id as int,
            event.event,
        ).log,
{
    let list_controllers = event.event.concerns_connection();
    let buttons = event.event.to_buttons();
    let transitions = press_buttons(event.pad_id, &buttons, layout, state);
    Reaction { list_controllers, transitions }
}

} // verus!
