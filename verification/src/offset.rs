//! Stick deflections as IEEE 754 single-precision bit patterns.
//!
//! A deflection is kept as the 32 bits of its binary32 encoding: one sign bit,
//! eight exponent bits and twenty-three fraction bits. Whether one deflection
//! lies above or below another is decided on the bit patterns alone, the way
//! the hardware comparison decides it for the encoded numbers.

use vstd::arithmetic::power2::{lemma_pow2_pos, lemma_pow2_strictly_increases, lemma_pow2_unfold, pow2};
use vstd::prelude::*;

verus! {

/// The sign bit of a binary32 pattern.
pub const SIGN_BIT: u32 = 0x8000_0000;

/// The pattern of positive infinity; larger magnitudes encode no number.
pub const INFINITY_BITS: u32 = 0x7f80_0000;

/// A stick deflection, held as the bit pattern of a single-precision number.
#[derive(Clone, Copy, Debug)]
pub struct AxisOffset {
    pub bits: u32,
}

impl AxisOffset {
    /// The pattern with its sign bit cleared.
    pub open spec fn magnitude(self) -> int {
        if self.bits >= SIGN_BIT {
            self.bits - SIGN_BIT
        } else {
            self.bits as int
        }
    }

    /// Whether the sign bit is set.
    pub open spec fn is_negative(self) -> bool {
        self.bits >= SIGN_BIT
    }

    /// Whether the pattern encodes no number at all.
    pub open spec fn is_nan(self) -> bool {
        self.magnitude() > INFINITY_BITS
    }

    /// The place of the encoded number in the order of all encoded numbers:
    /// the magnitude, counted downwards from zero where the sign bit is set.
    /// Both zeros share place 0.
    pub open spec fn rank(self) -> int {
        if self.is_negative() {
            -self.magnitude()
        } else {
            self.magnitude()
        }
    }

    /// The encoded number as a multiple of two to the power of -149: its
    /// size, counted downwards from zero where the sign bit is set.
    pub open spec fn scaled(self) -> int {
        if self.is_negative() {
            -size_of(self.magnitude())
        } else {
            size_of(self.magnitude())
        }
    }

    /// `self > bound` on the encoded numbers; false as soon as either side
    /// encodes no number.
    pub open spec fn above(self, bound: AxisOffset) -> bool {
        !self.is_nan() && !bound.is_nan() && self.rank() > bound.rank()
    }

    /// `self < bound` on the encoded numbers; false as soon as either side
    /// encodes no number.
    pub open spec fn below(self, bound: AxisOffset) -> bool {
        !self.is_nan() && !bound.is_nan() && self.rank() < bound.rank()
    }

    /// The encoded number with the opposite sign.
    pub open spec fn negated(self) -> AxisOffset {
        AxisOffset {
            bits: if self.bits >= SIGN_BIT {
                (self.bits - SIGN_BIT) as u32
            } else {
                (self.bits + SIGN_BIT) as u32
            },
        }
    }

    /// Wraps the bit pattern of a single-precision number.
    pub fn from_bits(bits: u32) -> (offset: AxisOffset)
        ensures
            offset.bits == bits,
    {
        AxisOffset { bits }
    }

    /// The bit pattern that this deflection holds.
    pub fn to_bits(self) -> (bits: u32)
        ensures
            bits == self.bits,
    {
        self.bits
    }

    /// Flips the sign of the encoded number.
    pub fn negate(self) -> (flipped: AxisOffset)
        ensures
            flipped == self.negated(),
            flipped.magnitude() == self.magnitude(),
            flipped.is_negative() != self.is_negative(),
    {
        if self.bits >= SIGN_BIT {
            AxisOffset { bits: self.bits - SIGN_BIT }
        } else {
            AxisOffset { bits: self.bits + SIGN_BIT }
        }
    }

    /// Tells whether the pattern encodes no number.
    pub fn encodes_no_number(self) -> (nan: bool)
        ensures
            nan == self.is_nan(),
    {
        let magnitude: u32 = if self.bits >= SIGN_BIT {
            self.bits - SIGN_BIT
        } else {
            self.bits
        };
        magnitude > INFINITY_BITS
    }

    /// Splits the pattern into its sign and its magnitude.
    fn sign_and_magnitude(self) -> (parts: (bool, u32))
        ensures
            parts.0 == self.is_negative(),
            parts.1 == self.magnitude(),
    {
        if self.bits >= SIGN_BIT {
            (true, self.bits - SIGN_BIT)
        } else {
            (false, self.bits)
        }
    }

    /// Decides `self > bound` on the encoded numbers.
    pub fn is_above(self, bound: AxisOffset) -> (above: bool)
        ensures
            above == self.above(bound),
    {
        let (self_negative, self_magnitude) = self.sign_and_magnitude();
        let (bound_negative, bound_magnitude) = bound.sign_and_magnitude();
        if self_magnitude > INFINITY_BITS || bound_magnitude > INFINITY_BITS {
            false
        } else if self_negative {
            if bound_negative {
                self_magnitude < bound_magnitude
            } else {
                false
            }
        } else if bound_negative {
            self_magnitude > 0 || bound_magnitude > 0
        } else {
            self_magnitude > bound_magnitude
        }
    }

    /// Decides `self < bound` on the encoded numbers.
    pub fn is_below(self, bound: AxisOffset) -> (below: bool)
        ensures
            below == self.below(bound),
    {
        bound.is_above(self)
    }
}

/// Number of patterns that share one exponent: two to the power of the
/// twenty-three fraction bits.
pub const FRACTION_SPAN: u32 = 0x80_0000;

/// The size of the number that a magnitude encodes, as a multiple of the
/// smallest size that single precision can tell from zero (two to the power
/// of -149). With exponent field 0 the fraction counts such steps itself;
/// with exponent field `e` above 0 the size is the fraction with its leading
/// one, doubled `e - 1` times. The magnitude of infinity gets the size that
/// the next exponent would have.
pub open spec fn size_of(magnitude: int) -> int {
    let exponent = magnitude / (FRACTION_SPAN as int);
    let fraction = magnitude % (FRACTION_SPAN as int);
    if exponent == 0 {
        fraction
    } else {
        (FRACTION_SPAN + fraction) * pow2((exponent - 1) as nat)
    }
}

/// A larger magnitude encodes a number of larger size.
pub proof fn lemma_size_grows(smaller: int, larger: int)
    requires
        0 <= smaller < larger,
    ensures
        0 <= size_of(smaller) < size_of(larger),
{
    let span = FRACTION_SPAN as int;
    let low_exponent = smaller / span;
    let low_fraction = smaller % span;
    let high_exponent = larger / span;
    let high_fraction = larger % span;
    assert(smaller == span * low_exponent + low_fraction && 0 <= low_fraction < span
        && larger == span * high_exponent + high_fraction && 0 <= high_fraction < span && 0
        <= low_exponent <= high_exponent) by (nonlinear_arith)
        requires
            0 <= smaller < larger,
            span == 0x80_0000,
            low_exponent == smaller / span,
            low_fraction == smaller % span,
            high_exponent == larger / span,
            high_fraction == larger % span,
    ;
    if low_exponent == high_exponent {
        if low_exponent > 0 {
            let doubling = pow2((low_exponent - 1) as nat) as int;
            lemma_pow2_pos((low_exponent - 1) as nat);
            assert(0 <= (span + low_fraction) * doubling < (span + high_fraction) * doubling)
                by (nonlinear_arith)
                requires
                    0 <= low_fraction < high_fraction,
                    span > 0,
                    doubling > 0,
            ;
        }
    } else {
        let high_doubling = pow2((high_exponent - 1) as nat) as int;
        lemma_pow2_pos((high_exponent - 1) as nat);
        if low_exponent == 0 {
            assert((span + high_fraction) * high_doubling >= span) by (nonlinear_arith)
                requires
                    high_fraction >= 0,
                    span > 0,
                    high_doubling >= 1,
            ;
        } else {
            let low_doubling = pow2((low_exponent - 1) as nat) as int;
            lemma_pow2_pos((low_exponent - 1) as nat);
            lemma_pow2_unfold(low_exponent as nat);
            if low_exponent < high_exponent - 1 {
                lemma_pow2_strictly_increases(low_exponent as nat, (high_exponent - 1) as nat);
            }
            assert(2 * low_doubling <= high_doubling);
            assert(0 <= (span + low_fraction) * low_doubling < (span + high_fraction)
                * high_doubling) by (nonlinear_arith)
                requires
                    0 <= low_fraction < span,
                    0 <= high_fraction,
                    low_doubling > 0,
                    2 * low_doubling <= high_doubling,
            ;
        }
    }
}

/// The order of the places is the order of the encoded numbers: of two
/// patterns, the one with the higher place encodes the larger number, and
/// two patterns share a place exactly where they encode the same number.
pub proof fn lemma_rank_orders_numbers(left: AxisOffset, right: AxisOffset)
    ensures
        left.rank() < right.rank() <==> left.scaled() < right.scaled(),
        left.rank() == right.rank() <==> left.scaled() == right.scaled(),
{
    let low = left.magnitude();
    let high = right.magnitude();
    if low < high {
        lemma_size_grows(low, high);
    } else if high < low {
        lemma_size_grows(high, low);
    }
    if 0 < low {
        lemma_size_grows(0, low);
    }
    if 0 < high {
        lemma_size_grows(0, high);
    }
    assert(size_of(0) == 0);
}

} // verus!
