//! Turns a stick deflection into press and release intents.
//!
//! A deflection beyond the threshold presses the key of its direction and
//! releases the key of the opposite one. A weaker deflection releases the key
//! of its own direction. The positive side begins above the inner bound; the
//! negative side takes every deflection below that same bound, the small
//! ones on either side of the rest position included. Only a deflection that
//! equals the inner bound, or that encodes no number, counts as centred.

use vstd::arithmetic::power2::pow2;
use vstd::prelude::*;
use crate::offset::{lemma_rank_orders_numbers, AxisOffset};

verus! {

/// Bit pattern of the inner bound: the single-precision number nearest to
/// one tenth.
pub const INNER_BOUND_BITS: u32 = 0x3dcc_cccd;

/// Bit pattern of the press threshold: one half.
pub const THRESHOLD_BITS: u32 = 0x3f00_0000;

/// The inner bound as a deflection.
pub open spec fn inner_bound() -> AxisOffset {
    AxisOffset { bits: INNER_BOUND_BITS }
}

/// The press threshold as a deflection.
pub open spec fn threshold() -> AxisOffset {
    AxisOffset { bits: THRESHOLD_BITS }
}

/// Whether a deflection yields no intent at all.
pub open spec fn axis_centered(offset: AxisOffset) -> bool {
    !offset.above(inner_bound()) && !offset.below(inner_bound())
}

/// Whether a deflection presses the key of one of the two directions.
pub open spec fn axis_presses(offset: AxisOffset) -> bool {
    offset.above(threshold()) || offset.below(threshold().negated())
}

/// The intents that a deflection yields, in the order in which they take
/// effect. Each intent pairs `true` for press or `false` for release with a
/// raw code.
pub open spec fn axis_intents(offset: AxisOffset, positive_code: u32, negative_code: u32) -> Seq<
    (bool, u32),
> {
    if offset.above(inner_bound()) {
        if offset.above(threshold()) {
            seq![(false, negative_code), (true, positive_code)]
        } else {
            seq![(false, positive_code)]
        }
    } else if offset.below(inner_bound()) {
        if offset.below(threshold().negated()) {
            seq![(false, positive_code), (true, negative_code)]
        } else {
            seq![(false, negative_code)]
        }
    } else {
        Seq::empty()
    }
}

/// Appends to `buttons` the intents that `offset` yields for an axis whose
/// directions stand in for `positive_code` and `negative_code`. Returns
/// `true` where the stick counts as centred and nothing was appended.
pub fn axis_to_buttons(
    buttons: &mut Vec<(bool, u32)>,
    offset: AxisOffset,
    positive_code: u32,
    negative_code: u32,
) -> (centered: bool)
    ensures
        final(buttons)@ == old(buttons)@ + axis_intents(offset, positive_code, negative_code),
        centered == axis_centered(offset),
{
    let inner = AxisOffset::from_bits(INNER_BOUND_BITS);
    let limit = AxisOffset::from_bits(THRESHOLD_BITS);
    if offset.is_above(inner) {
        let press = offset.is_above(limit);
        if press {
            buttons.push((false, negative_code));
        }
        buttons.push((press, positive_code));
    } else if offset.is_below(inner) {
        let press = offset.is_below(limit.negate());
        if press {
            buttons.push((false, positive_code));
        }
        buttons.push((press, negative_code));
    } else {
        return true;
    }
    false
}

/// The numbers behind the two bounds, as multiples of two to the power of
/// -149: the threshold is one half, the inner bound is 13421773 parts of two
/// to the power of 27, the single-precision number nearest to one tenth.
pub proof fn lemma_bounds_encode()
    ensures
        threshold().scaled() == pow2(148),
        threshold().negated().scaled() == -pow2(148),
        inner_bound().scaled() == 13421773 * pow2(122),
{
    assert(threshold().magnitude() / 0x80_0000 == 126 && threshold().magnitude() % 0x80_0000 == 0);
    assert(inner_bound().magnitude() / 0x80_0000 == 123 && inner_bound().magnitude() % 0x80_0000
        == 5033165);
    assert(threshold().negated().bits == 0xbf00_0000u32);
    assert(threshold().negated().magnitude() == threshold().magnitude());
    vstd::arithmetic::power2::lemma_pow2_adds(23, 125);
    vstd::arithmetic::power2::lemma2_to64();
}

/// What a deflection does, told by the number it encodes: it presses the
/// positive key exactly where the number exceeds one half, the negative key
/// exactly where the number lies below minus one half, and it is taken on
/// the positive side exactly where the number exceeds the inner bound.
pub proof fn lemma_branches_by_number(offset: AxisOffset)
    ensures
        offset.above(threshold()) <==> !offset.is_nan() && offset.scaled() > pow2(148),
        offset.below(threshold().negated()) <==> !offset.is_nan() && offset.scaled() < -pow2(148),
        offset.above(inner_bound()) <==> !offset.is_nan() && offset.scaled() > 13421773 * pow2(122),
        offset.below(inner_bound()) <==> !offset.is_nan() && offset.scaled() < 13421773 * pow2(122),
{
    lemma_bounds_encode();
    lemma_rank_orders_numbers(offset, threshold());
    lemma_rank_orders_numbers(threshold(), offset);
    lemma_rank_orders_numbers(offset, threshold().negated());
    lemma_rank_orders_numbers(threshold().negated(), offset);
    lemma_rank_orders_numbers(offset, inner_bound());
    lemma_rank_orders_numbers(inner_bound(), offset);
}

} // verus!
