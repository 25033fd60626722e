//! The key state machine: which keys are held, and which transitions a press
//! or release intent gives rise to.
//!
//! A transition is emitted only where the state of its key changes: a press
//! of a key that is already held and a release of a key that is not are
//! absorbed without a trace.

use vstd::prelude::*;
use crate::layout::{key_at, KeyLayout, ALPHABET_SIZE};

verus! {

/// A change of one key, as it is handed to the keyboard: key-down where
/// `pressed` holds, key-up where it does not.
#[derive(Clone, Copy, Debug, PartialEq, Eq, Structural)]
pub struct KeyTransition {
    pub key: char,
    pub pressed: bool,
}

/// The set of held keys after `key` took the state `pressed`.
pub open spec fn settle(held: Set<char>, key: char, pressed: bool) -> Set<char> {
    if pressed {
        held.insert(key)
    } else {
        held.remove(key)
    }
}

/// The transition that an intent on `key` gives rise to while `held` are the
/// held keys: one where the key changes its state, none where it already has
/// the state asked for.
pub open spec fn emission(held: Set<char>, key: char, pressed: bool) -> Option<KeyTransition> {
    if held.contains(key) == pressed {
        None
    } else {
        Some(KeyTransition { key, pressed })
    }
}

/// The held keys after an intent on a slot of a controller. An intent that
/// the layout has no key for leaves them as they are.
pub open spec fn slot_settle(
    rows: Seq<Seq<char>>,
    held: Set<char>,
    pad_id: int,
    pressed: bool,
    slot: int,
) -> Set<char> {
    match key_at(rows, pad_id, slot) {
        Some(key) => settle(held, key, pressed),
        None => held,
    }
}

/// The transition that an intent on a slot of a controller gives rise to.
pub open spec fn slot_emission(
    rows: Seq<Seq<char>>,
    held: Set<char>,
    pad_id: int,
    pressed: bool,
    slot: int,
) -> Option<KeyTransition> {
    match key_at(rows, pad_id, slot) {
        Some(key) => emission(held, key, pressed),
        None => None,
    }
}

/// One held-or-released flag for every character of the alphabet.
pub struct KeyState {
    flags: Vec<bool>,
}

impl View for KeyState {
    type V = Set<char>;

    /// The keys that are currently held.
    closed spec fn view(&self) -> Set<char> {
        Set::new(|key: char| 0 <= (key as int) < self.flags@.len() && self.flags@[key as int])
    }
}

impl KeyState {
    /// Whether the state has a flag for exactly the characters of the
    /// alphabet.
    pub closed spec fn wf(&self) -> bool {
        self.flags@.len() == ALPHABET_SIZE
    }

    /// The state in which no key is held.
    pub fn new() -> (state: KeyState)
        ensures
            state.wf(),
            state@ == Set::<char>::empty(),
    {
        let mut flags: Vec<bool> = Vec::new();
        let mut filled: usize = 0;
        while filled < ALPHABET_SIZE
            invariant
                filled <= ALPHABET_SIZE,
                flags@.len() == filled,
                forall|i: int| 0 <= i < flags@.len() ==> !flags@[i],
            decreases ALPHABET_SIZE - filled,
        {
            flags.push(false);
            filled = filled + 1;
        }
        let state = KeyState { flags };
        assert(state@ =~= Set::<char>::empty());
        state
    }

    /// Tells whether `key` is held.
    pub fn is_held(&self, key: char) -> (held: bool)
        ensures
            held == self@.contains(key),
    {
        let index: usize = key as usize;
        index < self.flags.len() && self.flags[index]
    }

    /// Gives `key` the state `pressed` and returns the transition to emit,
    /// if the key changed its state.
    pub fn apply(&mut self, key: char, pressed: bool) -> (emitted: Option<KeyTransition>)
        requires
            old(self).wf(),
            (key as int) < ALPHABET_SIZE,
        ensures
            final(self).wf(),
            final(self)@ == settle(old(self)@, key, pressed),
            emitted == emission(old(self)@, key, pressed),
    {
        let index: usize = key as usize;
        let was_held = self.flags[index];
        if was_held == pressed {
            assert(self@ =~= settle(self@, key, pressed));
            None
        } else {
            self.flags.set(index, pressed);
            assert(self@ =~= settle(old(self)@, key, pressed));
            Some(KeyTransition { key, pressed })
        }
    }
}

/// Carries out a press (`pad_set`) or release intent on slot `pad_letter` of
/// controller `pad_id`: looks the key up in `pads_chars`, brings
/// `ascii_state` up to date and returns the transition to hand to the
/// keyboard, if there is one. A controller without a row in the layout, or a
/// slot beyond the row's end, changes nothing.
pub fn button_to_keyboard(
    pad_id: usize,
    pad_set: bool,
    pad_letter: usize,
    pads_chars: &KeyLayout,
    ascii_state: &mut KeyState,
) -> (emitted: Option<KeyTransition>)
    requires
        pads_chars.wf(),
        old(ascii_state).wf(),
    ensures
        final(ascii_state).wf(),
        final(ascii_state)@ == slot_settle(
            pads_chars@,
            old(ascii_state)@,
            pad_id as int,
            pad_set,
            pad_letter as int,
        ),
        emitted == slot_emission(
            pads_chars@,
            old(ascii_state)@,
            pad_id as int,
            pad_set,
            pad_letter as int,
        ),
{
    match pads_chars.key(pad_id, pad_letter) {
        Some(letter) => ascii_state.apply(letter, pad_set),
        None => None,
    }
}

} // verus!
