use padkeys::keys::{button_to_keyboard, KeyState, KeyTransition};
use padkeys::layout::{KeyLayout, ALPHABET_SIZE, PAD_COUNT};

fn down(key: char) -> KeyTransition {
    KeyTransition { key, pressed: true }
}

fn up(key: char) -> KeyTransition {
    KeyTransition { key, pressed: false }
}

#[test]
fn standard_layout_has_the_four_keyboard_rows() {
    let layout = KeyLayout::standard();
    let rows = ["1234567890", "qwertyuiop", "asdfghjkl;", "zxcvbnm,./"];
    for (pad_id, row) in rows.iter().enumerate() {
        for (slot, key) in row.chars().enumerate() {
            assert_eq!(layout.key(pad_id, slot), Some(key));
        }
    }
}

#[test]
fn layout_has_no_key_beyond_its_rows() {
    let layout = KeyLayout::standard();
    assert_eq!(PAD_COUNT, 4);
    for slot in 0..12 {
        assert_eq!(layout.key(4, slot), None);
        assert_eq!(layout.key(5, slot), None);
        assert_eq!(layout.key(usize::MAX, slot), None);
    }
    for pad_id in 0..4 {
        assert_eq!(layout.key(pad_id, 10), None);
        assert_eq!(layout.key(pad_id, 11), None);
        assert_eq!(layout.key(pad_id, usize::MAX), None);
    }
}

#[test]
fn standard_keys_lie_in_the_alphabet_and_differ() {
    let layout = KeyLayout::standard();
    let mut seen = Vec::new();
    for pad_id in 0..4 {
        for slot in 0..10 {
            let key = layout.key(pad_id, slot).unwrap();
            assert!((key as usize) < ALPHABET_SIZE);
            assert!(!seen.contains(&key));
            seen.push(key);
        }
    }
    assert_eq!(seen.len(), 40);
}

#[test]
fn fresh_state_holds_no_key() {
    let state = KeyState::new();
    for code in 0u32..300 {
        if let Some(key) = char::from_u32(code) {
            assert!(!state.is_held(key));
        }
    }
    assert!(!state.is_held('\u{10FFFF}'));
}

#[test]
fn press_is_emitted_once() {
    let mut state = KeyState::new();
    assert_eq!(state.apply('a', true), Some(down('a')));
    assert!(state.is_held('a'));
    assert_eq!(state.apply('a', true), None);
    assert!(state.is_held('a'));
    assert!(!state.is_held('b'));
}

#[test]
fn release_is_emitted_only_for_a_held_key() {
    let mut state = KeyState::new();
    assert_eq!(state.apply('a', false), None);
    assert!(!state.is_held('a'));
    assert_eq!(state.apply('a', true), Some(down('a')));
    assert_eq!(state.apply('a', false), Some(up('a')));
    assert!(!state.is_held('a'));
    assert_eq!(state.apply('a', false), None);
}

#[test]
fn keys_are_tracked_apart() {
    let mut state = KeyState::new();
    assert_eq!(state.apply('\u{0}', true), Some(down('\u{0}')));
    assert_eq!(state.apply('\u{7f}', true), Some(down('\u{7f}')));
    assert_eq!(state.apply('q', true), Some(down('q')));
    assert_eq!(state.apply('\u{0}', false), Some(up('\u{0}')));
    assert!(!state.is_held('\u{0}'));
    assert!(state.is_held('\u{7f}'));
    assert!(state.is_held('q'));
    assert!(!state.is_held('r'));
}

#[test]
fn button_resolves_through_the_row_of_its_controller() {
    let layout = KeyLayout::standard();
    let mut state = KeyState::new();
    assert_eq!(button_to_keyboard(0, true, 0, &layout, &mut state), Some(down('1')));
    assert_eq!(button_to_keyboard(1, true, 0, &layout, &mut state), Some(down('q')));
    assert_eq!(button_to_keyboard(2, true, 9, &layout, &mut state), Some(down(';')));
    assert_eq!(button_to_keyboard(3, true, 9, &layout, &mut state), Some(down('/')));
    assert!(state.is_held('1') && state.is_held('q') && state.is_held(';') && state.is_held('/'));
    assert_eq!(button_to_keyboard(3, false, 9, &layout, &mut state), Some(up('/')));
    assert!(!state.is_held('/'));
}

#[test]
fn repeated_press_and_release_are_absorbed() {
    let layout = KeyLayout::standard();
    let mut state = KeyState::new();
    assert_eq!(button_to_keyboard(1, false, 4, &layout, &mut state), None);
    assert_eq!(button_to_keyboard(1, true, 4, &layout, &mut state), Some(down('t')));
    assert_eq!(button_to_keyboard(1, true, 4, &layout, &mut state), None);
    assert_eq!(button_to_keyboard(1, true, 4, &layout, &mut state), None);
    assert_eq!(button_to_keyboard(1, false, 4, &layout, &mut state), Some(up('t')));
    assert_eq!(button_to_keyboard(1, false, 4, &layout, &mut state), None);
}

#[test]
fn controller_without_a_row_is_ignored() {
    let layout = KeyLayout::standard();
    let mut state = KeyState::new();
    for pad_id in [4usize, 5, 100, usize::MAX] {
        for slot in 0..10 {
            assert_eq!(button_to_keyboard(pad_id, true, slot, &layout, &mut state), None);
            assert_eq!(button_to_keyboard(pad_id, false, slot, &layout, &mut state), None);
        }
    }
    for code in 0u32..128 {
        assert!(!state.is_held(char::from_u32(code).unwrap()));
    }
}

#[test]
fn slot_beyond_the_row_is_ignored() {
    let layout = KeyLayout::standard();
    let mut state = KeyState::new();
    assert_eq!(button_to_keyboard(0, true, 10, &layout, &mut state), None);
    assert_eq!(button_to_keyboard(0, true, usize::MAX, &layout, &mut state), None);
    for code in 0u32..128 {
        assert!(!state.is_held(char::from_u32(code).unwrap()));
    }
}
