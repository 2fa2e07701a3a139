//! A mutation probability: a real number between zero and one.
//!
//! A real number is held as the bit pattern of its double precision value
//! (sign, eleven bits of exponent, fifty-two bits of fraction), so that every
//! rule about it is a rule about integers. For the breeder's draws it is
//! turned into fixed point: a count of steps of one over `DENOMINATOR`.

use vstd::prelude::*;

verus! {

/// The number of steps that make up the whole: two to the power 53.
pub const DENOMINATOR: u64 = 0x20_0000_0000_0000;

/// Bit pattern of `1.0`.
pub const ONE_BITS: u64 = 0x3FF0_0000_0000_0000;

/// Bit pattern of `-0.0`, which compares equal to zero.
pub const NEGATIVE_ZERO_BITS: u64 = 0x8000_0000_0000_0000;

/// Whether the value with this bit pattern lies in `[0.0, 1.0]`. The bit
/// patterns of the values that are not negative are ordered as the values
/// are, and those above the pattern of one stand for more than one, for
/// infinity or for no number. A set sign bit stands for a negative value or
/// for no number, except in negative zero.
pub open spec fn in_unit_interval(bits: u64) -> bool {
    bits <= ONE_BITS || bits == NEGATIVE_ZERO_BITS
}

/// The exponent field of a bit pattern.
pub open spec fn exponent_of(bits: u64) -> u64 {
    (bits >> 52) & 0x7FF
}

/// The significand of a normal value: its fraction field under the hidden
/// leading bit.
pub open spec fn significand_of(bits: u64) -> u64 {
    (bits & 0xF_FFFF_FFFF_FFFF) | 0x10_0000_0000_0000
}

/// The whole steps in a value of the unit interval: the value times
/// `DENOMINATOR`, rounded down. A normal value is its significand times two
/// to the power of its exponent field less 1075, so its steps are the
/// significand shifted right by 1022 less the exponent field. Zero, negative
/// zero and the subnormal values hold no whole step, and one holds them all.
pub open spec fn steps_of(bits: u64) -> u64 {
    let e = exponent_of(bits);
    if bits == NEGATIVE_ZERO_BITS || e == 0 || e < 970 {
        0
    } else if e >= 1023 {
        DENOMINATOR
    } else {
        significand_of(bits) >> ((1022 - e) as u64)
    }
}

/// Custom error for percentage-related things: the bit pattern of the value
/// that was refused.
#[derive(Debug, Clone, Copy)]
pub struct PercentageError {
    pub value: u64,
}

/// Represents a percentage in decimal format (e. g., 0.7 is 70%).
#[derive(Debug, Clone, Copy)]
pub struct Percentage {
    bits: u64,
}

impl Percentage {
    /// The bit pattern of the value.
    pub closed spec fn view(&self) -> u64 {
        self.bits
    }

    /// A percentage lies in the unit interval.
    pub open spec fn wf(&self) -> bool {
        in_unit_interval(self@)
    }

    /// Receives the bit pattern of a number in decimal format. Fails if the
    /// number is not in the range [0.0, 1.0].
    pub fn new(bits: u64) -> (r: Result<Self, PercentageError>)
        ensures
            in_unit_interval(bits) <==> r is Ok,
            r matches Ok(p) ==> p@ == bits && p.wf(),
            r matches Err(e) ==> e.value == bits,
    {
        if bits <= ONE_BITS || bits == NEGATIVE_ZERO_BITS {
            Ok(Self { bits })
        } else {
            Err(PercentageError { value: bits })
        }
    }

    /// Receives the bit pattern of a number in decimal format, but will not
    /// check boundaries.
    pub fn new_unchecked(bits: u64) -> (r: Self)
        requires
            in_unit_interval(bits),
        ensures
            r@ == bits,
            r.wf(),
    {
        Self { bits }
    }

    /// Gets the value as its plain bit pattern.
    pub fn get(&self) -> (r: u64)
        ensures
            r == self@,
    {
        self.bits
    }

    /// The whole steps of the value.
    pub fn steps(&self) -> (r: u64)
        ensures
            r == steps_of(self@),
            r <= DENOMINATOR,
    {
        let bits: u64 = self.bits;
        let e: u64 = (bits >> 52) & 0x7FF;
        if bits == NEGATIVE_ZERO_BITS || e == 0 || e < 970 {
            0
        } else if e >= 1023 {
            DENOMINATOR
        } else {
            let significand: u64 = (bits & 0xF_FFFF_FFFF_FFFF) | 0x10_0000_0000_0000;
            let shift: u64 = 1022 - e;
            assert(significand >> shift <= 0x20_0000_0000_0000) by (bit_vector)
                requires
                    significand == (bits & 0xF_FFFF_FFFF_FFFF) | 0x10_0000_0000_0000,
                    shift < 64,
            ;
            significand >> shift
        }
    }
}

/// No value holds more steps than the whole.
pub proof fn lemma_steps_bounded(bits: u64)
    ensures
        steps_of(bits) <= DENOMINATOR,
{
    let e = exponent_of(bits);
    if !(bits == NEGATIVE_ZERO_BITS || e == 0 || e < 970) && e < 1023 {
        let significand = significand_of(bits);
        let shift = (1022 - e) as u64;
        assert(significand >> shift <= 0x20_0000_0000_0000) by (bit_vector)
            requires
                significand == (bits & 0xF_FFFF_FFFF_FFFF) | 0x10_0000_0000_0000,
                shift < 64,
        ;
    }
}

/// Zero holds no step, one holds them all, and a half holds half of them.
pub proof fn lemma_steps_of_landmarks()
    ensures
        steps_of(0) == 0,
        steps_of(NEGATIVE_ZERO_BITS) == 0,
        steps_of(ONE_BITS) == DENOMINATOR,
        steps_of(0x3FE0_0000_0000_0000) == 0x10_0000_0000_0000,
{
    assert((0u64 >> 52) & 0x7FF == 0) by (bit_vector);
    assert((0x3FF0_0000_0000_0000u64 >> 52) & 0x7FF == 1023) by (bit_vector);
    assert((0x3FE0_0000_0000_0000u64 >> 52) & 0x7FF == 1022) by (bit_vector);
    assert(((0x3FE0_0000_0000_0000u64 & 0xF_FFFF_FFFF_FFFF) | 0x10_0000_0000_0000) >> 0
        == 0x10_0000_0000_0000) by (bit_vector);
}

/// Exactly the values with no whole step never let a draw mutate, and
/// exactly one of the unit interval lets every draw mutate.
pub proof fn lemma_steps_extremes(bits: u64)
    requires
        in_unit_interval(bits),
    ensures
        steps_of(bits) == DENOMINATOR <==> bits == ONE_BITS,
        bits == 0 ==> steps_of(bits) == 0,
{
    let e = exponent_of(bits);
    assert(bits <= 0x3FF0_0000_0000_0000 ==> (bits >> 52) & 0x7FF <= 1023) by (bit_vector);
    assert(bits <= 0x3FF0_0000_0000_0000 && (bits >> 52) & 0x7FF == 1023 ==> bits
        == 0x3FF0_0000_0000_0000) by (bit_vector);
    assert((0x3FF0_0000_0000_0000u64 >> 52) & 0x7FF == 1023) by (bit_vector);
    assert((0u64 >> 52) & 0x7FF == 0) by (bit_vector);
    assert((0x8000_0000_0000_0000u64 >> 52) & 0x7FF == 0) by (bit_vector);
    if !(bits == NEGATIVE_ZERO_BITS || e == 0 || e < 970) && e < 1023 {
        let shift = (1022 - e) as u64;
        assert(bits <= 0x3FF0_0000_0000_0000 && shift == 1022 - ((bits >> 52) & 0x7FF) && shift
            < 64 ==> (((bits & 0xF_FFFF_FFFF_FFFF) | 0x10_0000_0000_0000) >> shift)
            < 0x20_0000_0000_0000) by (bit_vector);
    }
}

/// Within the unit interval, a larger value never holds fewer steps.
pub proof fn lemma_steps_monotonic(a: u64, b: u64)
    requires
        a <= b <= ONE_BITS,
    ensures
        steps_of(a) <= steps_of(b),
{
    let ea = exponent_of(a);
    let eb = exponent_of(b);
    assert(a <= b ==> (a >> 52) & 0x7FF <= (b >> 52) & 0x7FF || b > 0x3FF0_0000_0000_0000)
        by (bit_vector);
    assert(b <= 0x3FF0_0000_0000_0000 ==> (b >> 52) & 0x7FF <= 1023) by (bit_vector);
    lemma_steps_bounded(a);
    lemma_steps_bounded(b);
    if ea >= 970 && ea < 1023 && eb < 1023 {
        let sa = (1022 - ea) as u64;
        let sb = (1022 - eb) as u64;
        assert(a <= b && b <= 0x3FF0_0000_0000_0000 && sa == 1022 - ((a >> 52) & 0x7FF) && sb
            == 1022 - ((b >> 52) & 0x7FF) && sa < 64 && sb < 64 ==> (((a & 0xF_FFFF_FFFF_FFFF)
            | 0x10_0000_0000_0000) >> sa) <= (((b & 0xF_FFFF_FFFF_FFFF) | 0x10_0000_0000_0000)
            >> sb)) by (bit_vector);
    }
}

} // verus!
