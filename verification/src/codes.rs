//! Raw input codes and the canonical slots they stand for.
//!
//! Controllers report buttons under vendor-specific raw codes, and several
//! raw codes may name the same logical button. Each controller offers ten
//! canonical slots: two menu buttons (0 and 1), the four directions of the
//! d-pad or left stick (2 to 5: up, down, left, right) and the four action
//! buttons or right-stick directions (6 to 9).

use vstd::prelude::*;

verus! {

/// Number of canonical slots that one controller offers.
pub const SLOT_COUNT: usize = 10;

/// The analog axes that a controller can report.
#[derive(Clone, Copy, Debug, PartialEq, Eq, Structural)]
pub enum StickAxis {
    LeftStickX,
    LeftStickY,
    LeftZ,
    RightStickX,
    RightStickY,
    RightZ,
    DPadX,
    DPadY,
    Unknown,
}

/// The canonical slot that a raw input code stands for, if it stands for one.
pub open spec fn slot_of(code: u32) -> Option<usize> {
    if code == 65832 || code == 65850 || code == 65848 {
        Some(0usize)
    } else if code == 65833 || code == 65851 || code == 65849 {
        Some(1usize)
    } else if code == 66080 {
        Some(2usize)
    } else if code == 66081 {
        Some(3usize)
    } else if code == 66082 {
        Some(4usize)
    } else if code == 66083 {
        Some(5usize)
    } else if code == 65825 || code == 65841 {
        Some(6usize)
    } else if code == 65826 || code == 65840 {
        Some(7usize)
    } else if code == 65824 || code == 65844 {
        Some(8usize)
    } else if code == 65827 || code == 65843 {
        Some(9usize)
    } else {
        None
    }
}

/// The raw codes that the two directions of an axis stand in for, as
/// (positive direction, negative direction); `None` for an axis that drives
/// no key.
pub open spec fn axis_codes(axis: StickAxis) -> Option<(u32, u32)> {
    match axis {
        StickAxis::LeftStickY => Some((66080u32, 66081u32)),
        StickAxis::LeftStickX | StickAxis::LeftZ => Some((66083u32, 66082u32)),
        StickAxis::RightStickX => Some((65826u32, 65825u32)),
        StickAxis::RightZ | StickAxis::RightStickY => Some((65827u32, 65824u32)),
        _ => None,
    }
}

/// Maps a raw input code to its canonical slot; a code outside the table has
/// none.
pub fn normalize_code(code: u32) -> (slot: Option<usize>)
    ensures
        slot == slot_of(code),
        slot matches Some(s) ==> s < SLOT_COUNT,
{
    match code {
        65832 | 65850 | 65848 => Some(0),
        65833 | 65851 | 65849 => Some(1),
        66080 => Some(2),
        66081 => Some(3),
        66082 => Some(4),
        66083 => Some(5),
        65825 | 65841 => Some(6),
        65826 | 65840 => Some(7),
        65824 | 65844 => Some(8),
        65827 | 65843 => Some(9),
        _ => None,
    }
}

/// Looks up the pair of raw codes that an axis stands in for.
pub fn codes_for_axis(axis: StickAxis) -> (codes: Option<(u32, u32)>)
    ensures
        codes == axis_codes(axis),
{
    match axis {
        StickAxis::LeftStickY => Some((66080, 66081)),
        StickAxis::LeftStickX | StickAxis::LeftZ => Some((66083, 66082)),
        StickAxis::RightStickX => Some((65826, 65825)),
        StickAxis::RightZ | StickAxis::RightStickY => Some((65827, 65824)),
        _ => None,
    }
}

/// Every slot that the table hands out lies among the ten slots of a
/// controller, whatever the code.
pub proof fn lemma_slots_in_range(code: u32)
    ensures
        slot_of(code) matches Some(s) ==> s < SLOT_COUNT,
{
}

/// Every one of the ten slots is reached by at least one raw code.
pub proof fn lemma_every_slot_is_reached(slot: usize)
    requires
        slot < SLOT_COUNT,
    ensures
        exists|code: u32| slot_of(code) == Some(slot),
{
    let witness: u32 = if slot == 0 {
        65832
    } else if slot == 1 {
        65833
    } else if slot == 2 {
        66080
    } else if slot == 3 {
        66081
    } else if slot == 4 {
        66082
    } else if slot == 5 {
        66083
    } else if slot == 6 {
        65825
    } else if slot == 7 {
        65826
    } else if slot == 8 {
        65824
    } else {
        65827
    };
    assert(slot_of(witness) == Some(slot));
}

/// The two directions of an axis stand in for codes of two different slots.
pub proof fn lemma_axis_directions_differ(axis: StickAxis)
    ensures
        axis_codes(axis) matches Some(codes) ==> {
            &&& slot_of(codes.0) is Some
            &&& slot_of(codes.1) is Some
            &&& slot_of(codes.0) != slot_of(codes.1)
        },
{
}

} // verus!
