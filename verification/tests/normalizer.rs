use padkeys::codes::{codes_for_axis, normalize_code, StickAxis, SLOT_COUNT};

#[test]
fn menu_codes_collapse_onto_the_first_two_slots() {
    for code in [65832u32, 65850, 65848] {
        assert_eq!(normalize_code(code), Some(0));
    }
    for code in [65833u32, 65851, 65849] {
        assert_eq!(normalize_code(code), Some(1));
    }
}

#[test]
fn dpad_codes_map_one_to_one() {
    assert_eq!(normalize_code(66080), Some(2));
    assert_eq!(normalize_code(66081), Some(3));
    assert_eq!(normalize_code(66082), Some(4));
    assert_eq!(normalize_code(66083), Some(5));
}

#[test]
fn action_codes_collapse_pairwise() {
    assert_eq!(normalize_code(65825), Some(6));
    assert_eq!(normalize_code(65841), Some(6));
    assert_eq!(normalize_code(65826), Some(7));
    assert_eq!(normalize_code(65840), Some(7));
    assert_eq!(normalize_code(65824), Some(8));
    assert_eq!(normalize_code(65844), Some(8));
    assert_eq!(normalize_code(65827), Some(9));
    assert_eq!(normalize_code(65843), Some(9));
}

#[test]
fn codes_outside_the_table_are_unmapped() {
    for code in [0u32, 1, 9, 65823, 65828, 65831, 65834, 65842, 65845, 65852, 66079, 66084, u32::MAX] {
        assert_eq!(normalize_code(code), None, "code {}", code);
    }
}

#[test]
fn exactly_eighteen_codes_are_mapped_in_a_wide_sweep() {
    let mut mapped = 0;
    let mut reached = [false; SLOT_COUNT];
    for code in 0u32..200_000 {
        if let Some(slot) = normalize_code(code) {
            assert!(slot < SLOT_COUNT);
            reached[slot] = true;
            mapped += 1;
        }
    }
    assert_eq!(mapped, 18);
    assert!(reached.iter().all(|&r| r));
}

#[test]
fn normalizing_is_repeatable() {
    for code in 65800u32..66100 {
        assert_eq!(normalize_code(code), normalize_code(code));
    }
}

#[test]
fn stick_axes_stand_in_for_direction_codes() {
    assert_eq!(codes_for_axis(StickAxis::LeftStickY), Some((66080, 66081)));
    assert_eq!(codes_for_axis(StickAxis::LeftStickX), Some((66083, 66082)));
    assert_eq!(codes_for_axis(StickAxis::LeftZ), Some((66083, 66082)));
    assert_eq!(codes_for_axis(StickAxis::RightStickX), Some((65826, 65825)));
    assert_eq!(codes_for_axis(StickAxis::RightStickY), Some((65827, 65824)));
    assert_eq!(codes_for_axis(StickAxis::RightZ), Some((65827, 65824)));
}

#[test]
fn other_axes_drive_no_key() {
    assert_eq!(codes_for_axis(StickAxis::DPadX), None);
    assert_eq!(codes_for_axis(StickAxis::DPadY), None);
    assert_eq!(codes_for_axis(StickAxis::Unknown), None);
}

#[test]
fn axis_directions_land_on_neighbouring_slots() {
    let axes = [
        (StickAxis::LeftStickY, 2, 3),
        (StickAxis::LeftStickX, 5, 4),
        (StickAxis::LeftZ, 5, 4),
        (StickAxis::RightStickX, 7, 6),
        (StickAxis::RightStickY, 9, 8),
        (StickAxis::RightZ, 9, 8),
    ];
    for (axis, positive_slot, negative_slot) in axes {
        let (positive, negative) = codes_for_axis(axis).unwrap();
        assert_eq!(normalize_code(positive), Some(positive_slot));
        assert_eq!(normalize_code(negative), Some(negative_slot));
    }
}
