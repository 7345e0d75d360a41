//! Fixed-point real numbers and the beat/second conversions built on them.
//!
//! A value is a count of millionths ([`crate::UNIT`] units per one), so every
//! quantity the editor and the sequencer reason about is exact integer data.

use vstd::prelude::*;

verus! {

use crate::UNIT;

/// A real number held as a signed count of millionths.
#[derive(Clone, Copy, Debug, PartialEq, Eq, Structural)]
pub struct R64 {
    pub units: i64,
}

/// Musical time measured in beats.
pub type Beats = R64;
/// Wall-clock time measured in seconds.
pub type Secs = R64;
/// Wall-clock time measured in milliseconds.
pub type MSecs = R64;

impl View for R64 {
    type V = int;

    open spec fn view(&self) -> int {
        self.units as int
    }
}

impl R64 {
    /// The value as its raw count of millionths.
    pub fn units(&self) -> (r: i64)
        ensures
            r as int == self@,
    {
        self.units
    }

    /// Builds a value from a raw count of millionths.
    pub fn from_units(units: i64) -> (r: R64)
        ensures
            r@ == units as int,
    {
        R64 { units }
    }

    /// Builds the value `n` (so `n` whole units).
    pub fn from_int(n: i64) -> (r: R64)
        requires
            n * UNIT as int <= i64::MAX as int,
            n * UNIT as int >= i64::MIN as int,
        ensures
            r@ == n * UNIT as int,
    {
        R64 { units: n * UNIT }
    }

    pub fn zero() -> (r: R64)
        ensures
            r@ == 0,
    {
        R64 { units: 0 }
    }

    pub fn is_zero(&self) -> (r: bool)
        ensures
            r == (self@ == 0),
    {
        self.units == 0
    }

    pub fn le(&self, other: &R64) -> (r: bool)
        ensures
            r == (self@ <= other@),
    {
        self.units <= other.units
    }

    pub fn lt(&self, other: &R64) -> (r: bool)
        ensures
            r == (self@ < other@),
    {
        self.units < other.units
    }

    /// Checked addition; `None` exactly when the sum escapes the machine range.
    pub fn checked_add(self, rhs: R64) -> (r: Option<R64>)
        ensures
            r is Some <==> i64::MIN as int <= self@ + rhs@ <= i64::MAX as int,
            r is Some ==> r->0@ == self@ + rhs@,
    {
        match self.units.checked_add(rhs.units) {
            Some(units) => Some(R64 { units }),
            None => None,
        }
    }

    /// Checked subtraction; `None` exactly when the difference escapes the machine range.
    pub fn checked_sub(self, rhs: R64) -> (r: Option<R64>)
        ensures
            r is Some <==> i64::MIN as int <= self@ - rhs@ <= i64::MAX as int,
            r is Some ==> r->0@ == self@ - rhs@,
    {
        match self.units.checked_sub(rhs.units) {
            Some(units) => Some(R64 { units }),
            None => None,
        }
    }

    /// Addition under the caller's guarantee that the sum fits.
    pub fn add(self, rhs: R64) -> (r: R64)
        requires
            i64::MIN as int <= self@ + rhs@ <= i64::MAX as int,
        ensures
            r@ == self@ + rhs@,
    {
        R64 { units: self.units + rhs.units }
    }

    /// Subtraction under the caller's guarantee that the difference fits.
    pub fn sub(self, rhs: R64) -> (r: R64)
        requires
            i64::MIN as int <= self@ - rhs@ <= i64::MAX as int,
        ensures
            r@ == self@ - rhs@,
    {
        R64 { units: self.units - rhs.units }
    }

    /// The larger of the two values.
    pub fn max(self, rhs: R64) -> (r: R64)
        ensures
            r@ == if self@ >= rhs@ { self@ } else { rhs@ },
    {
        if self.units >= rhs.units { self } else { rhs }
    }

    /// The smaller of the two values.
    pub fn min(self, rhs: R64) -> (r: R64)
        ensures
            r@ == if self@ <= rhs@ { self@ } else { rhs@ },
    {
        if self.units <= rhs.units { self } else { rhs }
    }

    /// Multiplication by a non-negative integer, for non-negative values.
    pub fn mul_int(self, rhs: i64) -> (r: R64)
        requires
            0 <= self@,
            0 <= rhs,
            self@ * rhs <= i64::MAX as int,
        ensures
            r@ == self@ * rhs,
    {
        proof {
            mul_nonneg(self@, rhs as int);
        }
        R64 { units: self.units * rhs }
    }

    /// Fixed-point product of two non-negative values, truncated to millionths.
    pub fn mul(self, rhs: R64) -> (r: R64)
        requires
            0 <= self@,
            0 <= rhs@,
            self@ * rhs@ / UNIT as int <= i64::MAX as int,
        ensures
            r@ == self@ * rhs@ / UNIT as int,
    {
        proof {
            mul_nonneg(self@, rhs@);
            vstd::arithmetic::div_mod::lemma_div_pos_is_pos(self@ * rhs@, UNIT as int);
        }
        let wide: i128 = self.units as i128 * rhs.units as i128;
        (R64 { units: (wide / UNIT as i128) as i64 })
    }

    /// Fixed-point quotient `self / rhs` for a non-negative value and a positive
    /// divisor, truncated to millionths.
    pub fn div(self, rhs: R64) -> (r: R64)
        requires
            0 <= self@,
            0 < rhs@,
            self@ * UNIT as int / rhs@ <= i64::MAX as int,
        ensures
            r@ == self@ * UNIT as int / rhs@,
    {
        proof {
            mul_nonneg(self@, UNIT as int);
            vstd::arithmetic::div_mod::lemma_div_pos_is_pos(self@ * UNIT as int, rhs@);
        }
        let wide: i128 = self.units as i128 * UNIT as i128;
        (R64 { units: (wide / rhs.units as i128) as i64 })
    }
}

impl R64 {
    /// Saturating addition: the exact sum, clamped into the machine range.
    pub fn sat_add(self, rhs: R64) -> (r: R64)
        ensures
            r@ == if self@ + rhs@ > i64::MAX as int {
                i64::MAX as int
            } else if self@ + rhs@ < i64::MIN as int {
                i64::MIN as int
            } else {
                self@ + rhs@
            },
    {
        match self.units.checked_add(rhs.units) {
            Some(units) => R64 { units },
            None => if rhs.units >= 0 {
                R64 { units: i64::MAX }
            } else {
                R64 { units: i64::MIN }
            },
        }
    }

    /// Saturating subtraction: the exact difference, clamped into the machine
    /// range.
    pub fn sat_sub(self, rhs: R64) -> (r: R64)
        ensures
            r@ == if self@ - rhs@ > i64::MAX as int {
                i64::MAX as int
            } else if self@ - rhs@ < i64::MIN as int {
                i64::MIN as int
            } else {
                self@ - rhs@
            },
    {
        match self.units.checked_sub(rhs.units) {
            Some(units) => R64 { units },
            None => if rhs.units >= 0 {
                R64 { units: i64::MIN }
            } else {
                R64 { units: i64::MAX }
            },
        }
    }

    /// The whole units in the value, truncated toward zero.
    pub fn trunc_units(self) -> (r: i64)
        requires
            self@ > i64::MIN as int,
        ensures
            r as int == if self@ >= 0 {
                self@ / UNIT as int
            } else {
                -((-self@) / UNIT as int)
            },
    {
        if self.units >= 0 {
            self.units / UNIT
        } else {
            proof {
                vstd::arithmetic::div_mod::lemma_div_pos_is_pos(-self@, UNIT as int);
                vstd::arithmetic::div_mod::lemma_div_is_ordered(0 - self@, 0 - i64::MIN as int, UNIT as int);
            }
            -((-self.units) / UNIT)
        }
    }

    /// What [`R64::snap_to_step`] returns: the value truncated toward zero to
    /// a multiple of a positive step; a zero step leaves it alone.
    pub open spec fn snap_spec(self, step: R64) -> int {
        if step@ <= 0 {
            self@
        } else if self@ >= 0 {
            self@ - self@ % step@
        } else {
            -((-self@) - (-self@) % step@)
        }
    }

    /// Truncates the value toward zero to a multiple of `step`; a step of
    /// zero or less turns snapping off.
    pub fn snap_to_step(self, step: R64) -> (r: R64)
        requires
            self@ > i64::MIN as int,
        ensures
            r@ == self.snap_spec(step),
    {
        if step.units <= 0 {
            self
        } else if self.units >= 0 {
            proof {
                vstd::arithmetic::div_mod::lemma_mod_bound(self@, step@);
            }
            R64 { units: self.units - self.units % step.units }
        } else {
            proof {
                vstd::arithmetic::div_mod::lemma_mod_bound(-self@, step@);
            }
            R64 { units: -((-self.units) - (-self.units) % step.units) }
        }
    }
}

impl R64 {
    /// Checked seconds-to-beats conversion at a non-negative tempo; `None`
    /// exactly when the product escapes the machine range.
    pub fn secs_to_beats_checked(self, bps: R64) -> (r: Option<R64>)
        requires
            0 <= self@,
            0 <= bps@,
        ensures
            r is Some <==> self@ * bps@ / UNIT as int <= i64::MAX as int,
            r is Some ==> r->0@ == self@ * bps@ / UNIT as int,
    {
        proof {
            mul_nonneg(self@, bps@);
            vstd::arithmetic::div_mod::lemma_div_pos_is_pos(self@ * bps@, UNIT as int);
            vstd::arithmetic::mul::lemma_mul_upper_bound(
                self@,
                i64::MAX as int,
                bps@,
                i64::MAX as int,
            );
        }
        let wide: i128 = self.units as i128 * bps.units as i128;
        let scaled: i128 = wide / UNIT as i128;
        if scaled > i64::MAX as i128 {
            None
        } else {
            Some(R64 { units: scaled as i64 })
        }
    }
}

impl crate::utils::RoundTo for R64 {
    open spec fn round_val(self) -> int {
        self@
    }

    fn floor_to(self, step: Self) -> (r: Self) {
        R64 { units: self.units.floor_to(step.units) }
    }

    fn ceil_to(self, step: Self) -> (r: Self) {
        R64 { units: self.units.ceil_to(step.units) }
    }
}

/// The product of two non-negative integers is non-negative.
proof fn mul_nonneg(a: int, b: int)
    requires
        0 <= a,
        0 <= b,
    ensures
        0 <= a * b,
{
    vstd::arithmetic::mul::lemma_mul_nonnegative(a, b);
}

/// Conversions between musical and wall-clock time at a fixed tempo of
/// `bps` beats per second: `secs == beats / bps` and `beats == secs * bps`.
///
/// The conversions are stated on the non-negative domain the library holds
/// its times in (offsets, clocks and lengths never go below zero). On
/// negative values the machine's truncated division and the specification's
/// floored one part ways, so rather than state a formula that quietly means
/// two things, the preconditions keep negatives out.
pub trait FromBeats: Sized {
    spec fn to_secs_spec(self, bps: Self) -> int;

    spec fn to_msecs_spec(self, bps: Self) -> int;

    spec fn secs_to_beats_spec(self, bps: Self) -> int;

    /// Beats to seconds: `self / bps`.
    fn to_secs(self, bps: Self) -> (r: Self)
        requires
            self.to_secs_wf(bps),
        ensures
            r.as_int() == self.to_secs_spec(bps);

    /// Beats to milliseconds: `self * 1000 / bps`.
    fn to_msecs(self, bps: Self) -> (r: Self)
        requires
            self.to_msecs_wf(bps),
        ensures
            r.as_int() == self.to_msecs_spec(bps);

    /// Seconds to beats: `self * bps`.
    fn secs_to_beats(self, bps: Self) -> (r: Self)
        requires
            self.secs_to_beats_wf(bps),
        ensures
            r.as_int() == self.secs_to_beats_spec(bps);

    spec fn as_int(self) -> int;

    spec fn to_secs_wf(self, bps: Self) -> bool;

    spec fn to_msecs_wf(self, bps: Self) -> bool;

    spec fn secs_to_beats_wf(self, bps: Self) -> bool;
}

impl FromBeats for R64 {
    open spec fn to_secs_spec(self, bps: Self) -> int {
        self@ * UNIT as int / bps@
    }

    open spec fn to_msecs_spec(self, bps: Self) -> int {
        self@ * 1000 * UNIT as int / bps@
    }

    open spec fn secs_to_beats_spec(self, bps: Self) -> int {
        self@ * bps@ / UNIT as int
    }

    fn to_secs(self, bps: Self) -> (r: Self) {
        self.div(bps)
    }

    fn to_msecs(self, bps: Self) -> (r: Self) {
        proof {
            mul_nonneg(self@, 1000);
        }
        let scaled = R64 { units: self.units * 1000 };
        assert(scaled@ * UNIT as int / bps@ == self@ * 1000 * UNIT as int / bps@);
        scaled.div(bps)
    }

    fn secs_to_beats(self, bps: Self) -> (r: Self) {
        self.mul(bps)
    }

    open spec fn as_int(self) -> int {
        self@
    }

    open spec fn to_secs_wf(self, bps: Self) -> bool {
        &&& 0 <= self@
        &&& 0 < bps@
        &&& self@ * UNIT as int / bps@ <= i64::MAX as int
    }

    open spec fn to_msecs_wf(self, bps: Self) -> bool {
        &&& 0 <= self@
        &&& 0 < bps@
        &&& self@ * 1000 <= i64::MAX as int
        &&& self@ * 1000 * UNIT as int / bps@ <= i64::MAX as int
    }

    open spec fn secs_to_beats_wf(self, bps: Self) -> bool {
        &&& 0 <= self@
        &&& 0 <= bps@
        &&& self@ * bps@ / UNIT as int <= i64::MAX as int
    }
}

/// Converting beats to seconds and back at the same positive tempo returns the
/// starting value, whenever the division by `bps` is exact (the conversion
/// loses nothing). An inexact input, such as one millionth of a beat at two
/// beats per second, is truncated by the first conversion and stays truncated.
pub proof fn lemma_beats_secs_round_trip(beats: R64, bps: R64)
    requires
        beats.to_secs_wf(bps),
        beats@ * UNIT as int % bps@ == 0,
        bps@ <= i64::MAX as int,
    ensures
        secs_to_beats_spec_int(beats.to_secs_spec(bps), bps@) == beats@,
{
    let x = beats@ * UNIT as int;
    let d = bps@;
    vstd::arithmetic::div_mod::lemma_fundamental_div_mod(x, d);
    // x % d == 0, so (x / d) * d == x
    assert(x / d * d == x);
    let s = x / d;
    // s * d / UNIT == x / UNIT == beats@
    assert(s * d == beats@ * UNIT as int);
    vstd::arithmetic::mul::lemma_mul_is_commutative(beats@, UNIT as int);
    vstd::arithmetic::div_mod::lemma_div_multiples_vanish(beats@, UNIT as int);
    assert(s * d / UNIT as int == beats@);
}

/// Helper form of `secs_to_beats_spec` over a plain integer tempo, so the
/// round-trip law can speak about the intermediate value directly.
pub open spec fn secs_to_beats_spec_int(secs: int, bps: int) -> int {
    secs * bps / UNIT as int
}

} // verus!
