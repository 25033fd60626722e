//! What holds of every run: the transitions handed to the keyboard are
//! genuine changes of state, so that key-down and key-up alternate for every
//! key, and repeating a deflection of a stick changes nothing.

use vstd::prelude::*;
use crate::codes::{axis_codes, lemma_axis_directions_differ, slot_of};
use crate::digitizer::{axis_centered, axis_intents, axis_presses};
use crate::events::{PadEvent, RawEvent};
use crate::keys::{settle, KeyTransition};
use crate::layout::{key_at, standard_rows};
use crate::offset::AxisOffset;
use crate::trace::{code_key, Trace};

verus! {

/// The keys that are held once the transitions of `log` have taken effect,
/// one after the other, on the keys `held`.
pub open spec fn replay(held: Set<char>, log: Seq<KeyTransition>) -> Set<char>
    decreases log.len(),
{
    if log.len() == 0 {
        held
    } else {
        settle(replay(held, log.drop_last()), log.last().key, log.last().pressed)
    }
}

/// Whether every transition of `log`, taken in order from the keys `held`,
/// changes the state of its key: a key-down finds its key released, a key-up
/// finds it held.
pub open spec fn edges_only(held: Set<char>, log: Seq<KeyTransition>) -> bool
    decreases log.len(),
{
    log.len() == 0 || {
        &&& edges_only(held, log.drop_last())
        &&& replay(held, log.drop_last()).contains(log.last().key) != log.last().pressed
    }
}

/// How often `log` holds the transition of `key` to the state `pressed`.
pub open spec fn count_of(log: Seq<KeyTransition>, key: char, pressed: bool) -> nat
    decreases log.len(),
{
    if log.len() == 0 {
        0
    } else {
        count_of(log.drop_last(), key, pressed) + if log.last().key == key && log.last().pressed
            == pressed {
            1nat
        } else {
            0nat
        }
    }
}

/// The key-down transitions of `key` in `log` less its key-up transitions.
pub open spec fn balance(log: Seq<KeyTransition>, key: char) -> int {
    count_of(log, key, true) - count_of(log, key, false)
}

/// 1 where `key` is among `held`, 0 where it is not.
pub open spec fn held_count(held: Set<char>, key: char) -> int {
    if held.contains(key) {
        1
    } else {
        0
    }
}

/// Whether a run holds together: its log consists of genuine changes of
/// state from the keys `begin`, and leads from them to the keys that the run
/// says are held.
pub open spec fn coherent(begin: Set<char>, run: Trace) -> bool {
    edges_only(begin, run.log) && replay(begin, run.log) == run.held
}

/// An intent on a slot keeps a run coherent.
pub proof fn lemma_slot_intent_coherent(
    begin: Set<char>,
    run: Trace,
    rows: Seq<Seq<char>>,
    pad_id: int,
    pressed: bool,
    slot: int,
)
    requires
        coherent(begin, run),
    ensures
        coherent(begin, run.slot_intent(rows, pad_id, pressed, slot)),
{
    let after = run.slot_intent(rows, pad_id, pressed, slot);
    match key_at(rows, pad_id, slot) {
        Some(key) => {
            if run.held.contains(key) == pressed {
                assert(after.log =~= run.log);
                assert(after.held =~= run.held);
            } else {
                let transition = KeyTransition { key, pressed };
                assert(after.log =~= run.log.push(transition));
                assert(after.log.drop_last() =~= run.log);
            }
        },
        None => {
            assert(after.log =~= run.log);
        },
    }
}

/// A list of intents keeps a run coherent.
pub proof fn lemma_intents_coherent(
    begin: Set<char>,
    run: Trace,
    rows: Seq<Seq<char>>,
    pad_id: int,
    intents: Seq<(bool, u32)>,
)
    requires
        coherent(begin, run),
    ensures
        coherent(begin, run.intents(rows, pad_id, intents)),
    decreases intents.len(),
{
    if intents.len() > 0 {
        lemma_intents_coherent(begin, run, rows, pad_id, intents.drop_last());
        let before = run.intents(rows, pad_id, intents.drop_last());
        match slot_of(intents.last().1) {
            Some(slot) => {
                lemma_slot_intent_coherent(begin, before, rows, pad_id, intents.last().0, slot as int);
            },
            None => {},
        }
    }
}

/// A sequence of events keeps a run coherent.
pub proof fn lemma_events_coherent(
    begin: Set<char>,
    run: Trace,
    rows: Seq<Seq<char>>,
    events: Seq<PadEvent>,
)
    requires
        coherent(begin, run),
    ensures
        coherent(begin, run.events(rows, events)),
    decreases events.len(),
{
    if events.len() > 0 {
        lemma_events_coherent(begin, run, rows, events.drop_last());
        lemma_intents_coherent(
            begin,
            run.events(rows, events.drop_last()),
            rows,
            events.last().pad_id as int,
            events.last().event.intents(),
        );
    }
}

/// Debounce. Whatever the layout, the keys held at the start and the events
/// that come in, every transition that a run hands to the keyboard changes
/// the state of its key, and the transitions together lead from the keys held
/// at the start to the keys held at the end.
pub proof fn lemma_run_emits_edges(held: Set<char>, rows: Seq<Seq<char>>, events: Seq<PadEvent>)
    ensures
        edges_only(held, Trace::start(held).events(rows, events).log),
        replay(held, Trace::start(held).events(rows, events).log) == Trace::start(held).events(
            rows,
            events,
        ).held,
{
    lemma_events_coherent(held, Trace::start(held), rows, events);
}

/// A log of genuine changes stays one when it is cut short.
pub proof fn lemma_edges_prefix(held: Set<char>, log: Seq<KeyTransition>, len: int)
    requires
        edges_only(held, log),
        0 <= len <= log.len(),
    ensures
        edges_only(held, log.take(len)),
        len < log.len() ==> replay(held, log.take(len)).contains(log[len].key) != log[len].pressed,
    decreases log.len() - len,
{
    if len == log.len() {
        assert(log.take(len) =~= log);
    } else {
        lemma_edges_prefix(held, log, len + 1);
        let longer = log.take(len + 1);
        assert(longer.drop_last() =~= log.take(len));
        assert(longer.last() == log[len]);
    }
}

/// A stretch of a log that does not touch `key` leaves the state of `key` as
/// it was before the stretch.
pub proof fn lemma_untouched_key(
    held: Set<char>,
    log: Seq<KeyTransition>,
    from: int,
    to: int,
    key: char,
)
    requires
        0 <= from <= to <= log.len(),
        forall|k: int| from <= k < to ==> (#[trigger] log[k]).key != key,
    ensures
        replay(held, log.take(to)).contains(key) == replay(held, log.take(from)).contains(key),
    decreases to - from,
{
    if from < to {
        lemma_untouched_key(held, log, from, to - 1, key);
        let longer = log.take(to);
        assert(longer.drop_last() =~= log.take(to - 1));
        assert(longer.last() == log[to - 1]);
    }
}

/// Alternation. In a log of genuine changes, two transitions of the same key
/// with none of that key between them are a key-down and a key-up: no key
/// gets the same transition twice in a row.
pub proof fn lemma_transitions_alternate(
    held: Set<char>,
    log: Seq<KeyTransition>,
    first: int,
    second: int,
)
    requires
        edges_only(held, log),
        0 <= first < second < log.len(),
        log[first].key == log[second].key,
        forall|k: int| first < k < second ==> (#[trigger] log[k]).key != log[first].key,
    ensures
        log[first].pressed != log[second].pressed,
{
    let key = log[first].key;
    lemma_edges_prefix(held, log, second);
    lemma_untouched_key(held, log, first + 1, second, key);
    let upto = log.take(first + 1);
    assert(upto.drop_last() =~= log.take(first));
    assert(upto.last() == log[first]);
}

/// In a log of genuine changes, the first transition of a key is a key-down
/// exactly where the key was not held at the start.
pub proof fn lemma_first_transition(held: Set<char>, log: Seq<KeyTransition>, first: int)
    requires
        edges_only(held, log),
        0 <= first < log.len(),
        forall|k: int| 0 <= k < first ==> (#[trigger] log[k]).key != log[first].key,
    ensures
        log[first].pressed == !held.contains(log[first].key),
{
    lemma_edges_prefix(held, log, first);
    lemma_untouched_key(held, log, 0, first, log[first].key);
    assert(log.take(0) =~= Seq::<KeyTransition>::empty());
}

/// In a log of genuine changes, the key-down transitions of a key outnumber
/// its key-up transitions by as much as the key is more held at the end than
/// at the start.
pub proof fn lemma_balance_follows_state(held: Set<char>, log: Seq<KeyTransition>, key: char)
    requires
        edges_only(held, log),
    ensures
        balance(log, key) == held_count(replay(held, log), key) - held_count(held, key),
    decreases log.len(),
{
    if log.len() > 0 {
        lemma_balance_follows_state(held, log.drop_last(), key);
    }
}

/// The balance of every run. For every key, the key-down transitions handed
/// to the keyboard less the key-up transitions are 1 where the run took the
/// key from released to held, -1 where it took it from held to released, and
/// 0 otherwise. A key that was released at the start therefore never has
/// more key-up than key-down transitions, nor two key-down transitions in
/// excess.
pub proof fn lemma_run_balance(
    held: Set<char>,
    rows: Seq<Seq<char>>,
    events: Seq<PadEvent>,
    key: char,
)
    ensures
        balance(Trace::start(held).events(rows, events).log, key) == held_count(
            Trace::start(held).events(rows, events).held,
            key,
        ) - held_count(held, key),
        !held.contains(key) ==> 0 <= balance(Trace::start(held).events(rows, events).log, key)
            <= 1,
{
    lemma_run_emits_edges(held, rows, events);
    lemma_balance_follows_state(held, Trace::start(held).events(rows, events).log, key);
}

/// The events of one button of one controller that goes down wherever
/// `presses` holds `true` and comes up wherever it holds `false`.
pub open spec fn button_events(pad_id: usize, code: u32, presses: Seq<bool>) -> Seq<PadEvent> {
    Seq::new(
        presses.len(),
        |i: int|
            PadEvent {
                pad_id,
                event: if presses[i] {
                    RawEvent::ButtonPressed(code)
                } else {
                    RawEvent::ButtonReleased(code)
                },
            },
    )
}

/// One button. However a button of one raw code is pressed and released,
/// starting with no key held, the key-down transitions of every key less its
/// key-up transitions are 0 or 1, and for the key that the code resolves to
/// they are 1 exactly while that key is held.
pub proof fn lemma_button_balance(
    rows: Seq<Seq<char>>,
    pad_id: usize,
    code: u32,
    presses: Seq<bool>,
    key: char,
)
    ensures
        0 <= balance(
            Trace::start(Set::empty()).events(rows, button_events(pad_id, code, presses)).log,
            key,
        ) <= 1,
        balance(
            Trace::start(Set::empty()).events(rows, button_events(pad_id, code, presses)).log,
            key,
        ) == held_count(
            Trace::start(Set::empty()).events(rows, button_events(pad_id, code, presses)).held,
            key,
        ),
{
    lemma_run_balance(Set::empty(), rows, button_events(pad_id, code, presses), key);
}

/// A list of no intents leaves a run as it is, a list of one intent is that
/// intent, and a list of two is the first and then the second.
pub proof fn lemma_short_intent_lists(
    run: Trace,
    rows: Seq<Seq<char>>,
    pad_id: int,
    first: (bool, u32),
    second: (bool, u32),
)
    ensures
        run.intents(rows, pad_id, Seq::empty()) == run,
        run.intents(rows, pad_id, seq![first]) == run.code_intent(rows, pad_id, first.0, first.1),
        run.intents(rows, pad_id, seq![first, second]) == run.code_intent(
            rows,
            pad_id,
            first.0,
            first.1,
        ).code_intent(rows, pad_id, second.0, second.1),
{
    let one = seq![first];
    let two = seq![first, second];
    assert(one.drop_last() =~= Seq::<(bool, u32)>::empty());
    assert(two.drop_last() =~= one);
    assert(run.intents(rows, pad_id, one.drop_last()) == run);
    assert(run.intents(rows, pad_id, two) == run.intents(rows, pad_id, two.drop_last()).code_intent(
        rows,
        pad_id,
        two.last().0,
        two.last().1,
    ));
}

/// A deflection yields two intents where it presses a key, and at most one
/// where it does not.
pub proof fn lemma_axis_intent_count(offset: AxisOffset, positive_code: u32, negative_code: u32)
    ensures
        axis_presses(offset) ==> axis_intents(offset, positive_code, negative_code).len() == 2,
        !axis_presses(offset) ==> axis_intents(offset, positive_code, negative_code).len() <= 1,
        axis_centered(offset) <==> axis_intents(offset, positive_code, negative_code).len() == 0,
{
}

/// Repeating a deflection. Feeding a stick deflection in a second time
/// leaves the held keys as the first time left them. Unless the deflection
/// presses a key and both directions of the axis resolve to one and the same
/// key, the second time also hands nothing to the keyboard.
pub proof fn lemma_axis_repeat(
    held: Set<char>,
    rows: Seq<Seq<char>>,
    pad_id: int,
    offset: AxisOffset,
    positive_code: u32,
    negative_code: u32,
)
    ensures
        ({
            let intents = axis_intents(offset, positive_code, negative_code);
            let once = Trace::start(held).intents(rows, pad_id, intents);
            let twice = Trace::start(once.held).intents(rows, pad_id, intents);
            &&& twice.held == once.held
            &&& !(axis_presses(offset) && code_key(rows, pad_id, positive_code) is Some && code_key(
                rows,
                pad_id,
                positive_code,
            ) == code_key(rows, pad_id, negative_code)) ==> twice.log == Seq::<
                KeyTransition,
            >::empty()
        }),
{
    let intents = axis_intents(offset, positive_code, negative_code);
    let once = Trace::start(held).intents(rows, pad_id, intents);
    let again = Trace::start(once.held);
    let twice = again.intents(rows, pad_id, intents);
    lemma_axis_intent_count(offset, positive_code, negative_code);
    if intents.len() == 0 {
        assert(intents =~= Seq::<(bool, u32)>::empty());
        lemma_short_intent_lists(Trace::start(held), rows, pad_id, (false, 0), (false, 0));
        lemma_short_intent_lists(again, rows, pad_id, (false, 0), (false, 0));
    } else if intents.len() == 1 {
        let only = intents[0];
        assert(intents =~= seq![only]);
        lemma_short_intent_lists(Trace::start(held), rows, pad_id, only, only);
        lemma_short_intent_lists(again, rows, pad_id, only, only);
        assert(twice.held =~= once.held);
        assert(twice.log =~= Seq::<KeyTransition>::empty());
    } else {
        let first = intents[0];
        let second = intents[1];
        assert(intents =~= seq![first, second]);
        assert(!first.0 && second.0);
        lemma_short_intent_lists(Trace::start(held), rows, pad_id, first, second);
        lemma_short_intent_lists(again, rows, pad_id, first, second);
        assert(twice.held =~= once.held);
        if !(code_key(rows, pad_id, positive_code) is Some && code_key(rows, pad_id, positive_code)
            == code_key(rows, pad_id, negative_code)) {
            assert(twice.log =~= Seq::<KeyTransition>::empty());
        }
    }
}

/// In the standard layout no two slots of a controller share a key.
pub proof fn lemma_standard_keys_differ(pad_id: int, slot: int, other: int)
    requires
        slot != other,
        key_at(standard_rows(), pad_id, slot) is Some,
        key_at(standard_rows(), pad_id, other) is Some,
    ensures
        key_at(standard_rows(), pad_id, slot) != key_at(standard_rows(), pad_id, other),
{
    let rows = standard_rows();
    assert(0 <= pad_id < 4);
    assert(rows[pad_id].len() == 10);
    if pad_id == 0 {
        assert(rows[0] =~= seq!['1', '2', '3', '4', '5', '6', '7', '8', '9', '0']);
    } else if pad_id == 1 {
        assert(rows[1] =~= seq!['q', 'w', 'e', 'r', 't', 'y', 'u', 'i', 'o', 'p']);
    } else if pad_id == 2 {
        assert(rows[2] =~= seq!['a', 's', 'd', 'f', 'g', 'h', 'j', 'k', 'l', ';']);
    } else {
        assert(rows[3] =~= seq!['z', 'x', 'c', 'v', 'b', 'n', 'm', ',', '.', '/']);
    }
}

/// Repeating an event. With the standard layout, an event that comes in a
/// second time right after the first changes no key and hands nothing to
/// the keyboard, whichever event it is and whatever was held before.
pub proof fn lemma_event_repeat(held: Set<char>, pad_id: usize, event: RawEvent)
    ensures
        ({
            let once = Trace::start(held).event(standard_rows(), pad_id as int, event);
            let twice = Trace::start(once.held).event(standard_rows(), pad_id as int, event);
            &&& twice.held == once.held
            &&& twice.log == Seq::<KeyTransition>::empty()
        }),
{
    let rows = standard_rows();
    let once = Trace::start(held).event(rows, pad_id as int, event);
    let again = Trace::start(once.held);
    let twice = again.event(rows, pad_id as int, event);
    match event {
        RawEvent::ButtonPressed(code) => {
            lemma_short_intent_lists(Trace::start(held), rows, pad_id as int, (true, code), (true, code));
            lemma_short_intent_lists(again, rows, pad_id as int, (true, code), (true, code));
            assert(twice.held =~= once.held);
            assert(twice.log =~= Seq::<KeyTransition>::empty());
        },
        RawEvent::ButtonReleased(code) => {
            lemma_short_intent_lists(Trace::start(held), rows, pad_id as int, (false, code), (false, code));
            lemma_short_intent_lists(again, rows, pad_id as int, (false, code), (false, code));
            assert(twice.held =~= once.held);
            assert(twice.log =~= Seq::<KeyTransition>::empty());
        },
        RawEvent::AxisChanged(axis, offset) => {
            match axis_codes(axis) {
                Some(codes) => {
                    lemma_axis_directions_differ(axis);
                    lemma_axis_repeat(held, rows, pad_id as int, offset, codes.0, codes.1);
                    let positive = slot_of(codes.0)->Some_0;
                    let negative = slot_of(codes.1)->Some_0;
                    if key_at(rows, pad_id as int, positive as int) is Some && key_at(
                        rows,
                        pad_id as int,
                        negative as int,
                    ) is Some {
                        lemma_standard_keys_differ(pad_id as int, positive as int, negative as int);
                    }
                },
                None => {
                    lemma_short_intent_lists(Trace::start(held), rows, pad_id as int, (false, 0), (false, 0));
                    lemma_short_intent_lists(again, rows, pad_id as int, (false, 0), (false, 0));
                },
            }
        },
        _ => {
            lemma_short_intent_lists(Trace::start(held), rows, pad_id as int, (false, 0), (false, 0));
            lemma_short_intent_lists(again, rows, pad_id as int, (false, 0), (false, 0));
        },
    }
}

} // verus!
