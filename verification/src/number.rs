//! Single-precision numbers, held by their bit patterns.
//!
//! The router orders, compares and carries such numbers. Arithmetic on them
//! stays with the program that renders audio.

use vstd::prelude::*;

verus! {

/// The bit pattern of a single-precision number.
#[derive(Debug, Clone, Copy)]
pub struct Real32 {
    pub bits: u32,
}

/// The lowest bit pattern with the sign bit set.
pub const SIGN_BIT: u32 = 0x8000_0000;

/// The pattern of positive infinity: larger magnitudes are not numbers.
pub const INFINITY_BITS: u32 = 0x7F80_0000;

/// The pattern of zero.
pub const ZERO_BITS: u32 = 0;

/// The pattern of one half.
pub const HALF_BITS: u32 = 0x3F00_0000;

/// The pattern of one.
pub const ONE_BITS: u32 = 0x3F80_0000;

/// The pattern of two thousand.
pub const TWO_THOUSAND_BITS: u32 = 0x44FA_0000;

impl Real32 {
    /// The pattern without its sign.
    pub open spec fn magnitude(self) -> int {
        if self.bits < SIGN_BIT {
            self.bits as int
        } else {
            self.bits - SIGN_BIT
        }
    }

    /// Whether the pattern stands for no number.
    pub open spec fn nan(self) -> bool {
        self.magnitude() > INFINITY_BITS
    }

    /// Whether the pattern stands for a finite number.
    pub open spec fn finite(self) -> bool {
        self.magnitude() < INFINITY_BITS
    }

    /// A position on the number line: patterns that stand for numbers are ordered as
    /// their positions, and both zeros have the position zero.
    pub open spec fn position(self) -> int {
        if self.bits < SIGN_BIT {
            self.magnitude()
        } else {
            -self.magnitude()
        }
    }

    /// Equality of the numbers: what stands for no number equals nothing.
    pub open spec fn same(self, other: Real32) -> bool {
        !self.nan() && !other.nan() && self.position() == other.position()
    }

    /// Whether the number is below the other.
    pub open spec fn below(self, other: Real32) -> bool {
        !self.nan() && !other.nan() && self.position() < other.position()
    }

    /// Whether the number lies within the closed range.
    pub open spec fn within(self, low: Real32, high: Real32) -> bool {
        !self.nan() && !low.nan() && !high.nan() && low.position() <= self.position()
            <= high.position()
    }

    /// The number with the given bit pattern.
    pub fn from_bits(bits: u32) -> (r: Real32)
        ensures
            r.bits == bits,
    {
        Real32 { bits }
    }

    /// The bit pattern.
    pub fn to_bits(&self) -> (r: u32)
        ensures
            r == self.bits,
    {
        self.bits
    }

    /// Zero.
    pub fn zero() -> (r: Real32)
        ensures
            r.bits == ZERO_BITS,
    {
        Real32 { bits: ZERO_BITS }
    }

    fn magnitude_bits(&self) -> (r: u32)
        ensures
            r == self.magnitude(),
    {
        if self.bits < SIGN_BIT {
            self.bits
        } else {
            self.bits - SIGN_BIT
        }
    }

    /// Whether the pattern stands for a finite number.
    pub fn is_finite(&self) -> (r: bool)
        ensures
            r == self.finite(),
    {
        self.magnitude_bits() < INFINITY_BITS
    }

    /// Whether the pattern stands for no number.
    pub fn is_nan(&self) -> (r: bool)
        ensures
            r == self.nan(),
    {
        self.magnitude_bits() > INFINITY_BITS
    }

    fn line_position(&self) -> (r: i64)
        ensures
            r == self.position(),
    {
        if self.bits < SIGN_BIT {
            self.bits as i64
        } else {
            -((self.bits - SIGN_BIT) as i64)
        }
    }

    /// Equality of the numbers.
    pub fn same_as(&self, other: &Real32) -> (r: bool)
        ensures
            r == self.same(*other),
    {
        !self.is_nan() && !other.is_nan() && self.line_position() == other.line_position()
    }

    /// Whether the number is below the other.
    pub fn is_below(&self, other: &Real32) -> (r: bool)
        ensures
            r == self.below(*other),
    {
        !self.is_nan() && !other.is_nan() && self.line_position() < other.line_position()
    }

    /// Whether the number lies within the closed range.
    pub fn is_within(&self, low: &Real32, high: &Real32) -> (r: bool)
        ensures
            r == self.within(*low, *high),
    {
        !self.is_nan() && !low.is_nan() && !high.is_nan() && low.line_position()
            <= self.line_position() && self.line_position() <= high.line_position()
    }
}

/// Whether a delay in milliseconds lies in the range from zero to two thousand.
pub open spec fn delay_allowed(delay: Real32) -> bool {
    delay.within((Real32 { bits: ZERO_BITS }), (Real32 { bits: TWO_THOUSAND_BITS }))
}

/// Whether a delay in milliseconds lies in the range from zero to two thousand.
pub fn is_delay_allowed(delay: &Real32) -> (r: bool)
    ensures
        r == delay_allowed(*delay),
{
    delay.is_within(&Real32 { bits: ZERO_BITS }, &Real32 { bits: TWO_THOUSAND_BITS })
}

/// The pattern of minus one.
pub const MINUS_ONE_BITS: u32 = 0xBF80_0000;

/// A pan kept within its range from minus one to one; what is no number stays as it is.
pub open spec fn clamped_pan(pan: Real32) -> Real32 {
    let low = Real32 { bits: MINUS_ONE_BITS };
    let high = Real32 { bits: ONE_BITS };
    if pan.below(low) {
        low
    } else if high.below(pan) {
        high
    } else {
        pan
    }
}

/// A pan kept within its range from minus one to one; what is no number stays as it is.
pub fn clamp_pan(pan: Real32) -> (r: Real32)
    ensures
        r == clamped_pan(pan),
{
    let low = Real32 { bits: MINUS_ONE_BITS };
    let high = Real32 { bits: ONE_BITS };
    if pan.is_below(&low) {
        low
    } else if high.is_below(&pan) {
        high
    } else {
        pan
    }
}

impl PartialEq for Real32 {
    fn eq(&self, other: &Real32) -> (r: bool) {
        self.same_as(other)
    }
}

impl vstd::std_specs::cmp::PartialEqSpecImpl for Real32 {
    open spec fn obeys_eq_spec() -> bool {
        true
    }

    open spec fn eq_spec(&self, other: &Real32) -> bool {
        self.same(*other)
    }
}

/// The bit pattern of a double-precision number.
#[derive(Debug, Clone, Copy, PartialEq, Eq, Structural)]
pub struct Real64 {
    pub bits: u64,
}

/// Two numbers are the same where they have one pattern, or where both are zero; what stands for
/// no number is not even the same as itself.
pub proof fn law_same_numbers_have_one_pattern(a: Real32, b: Real32)
    ensures
        a.same(b) <==> (a.bits == b.bits && a.bits % 0x8000_0000 <= 0x7F80_0000) || (a.bits
            % 0x8000_0000 == 0 && b.bits % 0x8000_0000 == 0),
{
}

/// Numbers are in one order: of two different numbers one is below the other, none is below
/// itself, positive numbers are ordered as their patterns and negative ones the other way
/// round, and every negative number is below every positive one.
pub proof fn law_numbers_are_in_one_order(a: Real32, b: Real32)
    requires
        a.bits % 0x8000_0000 <= 0x7F80_0000,
        b.bits % 0x8000_0000 <= 0x7F80_0000,
    ensures
        a.below(b) || b.below(a) || a.same(b),
        !(a.below(b) && b.below(a)),
        !a.below(a),
        a.bits < 0x8000_0000 && b.bits < 0x8000_0000 ==> (a.below(b) <==> a.bits < b.bits),
        a.bits >= 0x8000_0000 && b.bits >= 0x8000_0000 ==> (a.below(b) <==> a.bits > b.bits),
        a.bits > 0x8000_0000 && b.bits < 0x8000_0000 ==> a.below(b),
{
}

/// A pan is kept where it lies from minus one to one; what lies below becomes minus one and what
/// lies above becomes one.
pub proof fn law_pan_is_clamped(pan: Real32)
    ensures
        pan.bits <= 0x3F80_0000 ==> clamped_pan(pan) == pan,
        0x8000_0000 <= pan.bits <= 0xBF80_0000 ==> clamped_pan(pan) == pan,
        0x3F80_0000 <= pan.bits <= 0x7F80_0000 ==> clamped_pan(pan).bits == 0x3F80_0000,
        0xBF80_0000 <= pan.bits <= 0xFF80_0000 ==> clamped_pan(pan).bits == 0xBF80_0000,
        pan.bits % 0x8000_0000 > 0x7F80_0000 ==> clamped_pan(pan) == pan,
{
}

/// A delay is allowed where it lies from zero to two thousand, and where else not.
pub proof fn law_delays_are_bounded(delay: Real32)
    ensures
        delay_allowed(delay) <==> delay.bits <= 0x44FA_0000 || delay.bits == 0x8000_0000,
{
}

/// A number is finite where it is below infinity either way.
pub proof fn law_finite_numbers_are_below_infinity(a: Real32)
    ensures
        a.finite() <==> a.bits % 0x8000_0000 < 0x7F80_0000,
        a.nan() <==> a.bits % 0x8000_0000 > 0x7F80_0000,
{
}

} // verus!
