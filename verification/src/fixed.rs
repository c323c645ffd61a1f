//! Fixed-point numbers: the scalars in which coordinates and distances are measured.
//!
//! A [`Fixed`] is a signed number with 32 fractional bits. Its mathematical model is its
//! raw value, an integer that counts units of 2^-32, so the number one has the raw value
//! 2^32. Arithmetic never panics and never wraps: a result that leaves the representable
//! range is clamped to the nearest bound. The range is symmetric, so negation and absolute
//! value are always exact.

use vstd::prelude::*;

verus! {

/// Raw value of the number one.
pub const ONE_RAW: i64 = 0x1_0000_0000;

/// Raw value of one half.
pub const HALF_RAW: i64 = 0x8000_0000;

/// Largest raw value; the smallest is its negation.
pub const MAX_RAW: i64 = 0x7fff_ffff_ffff_ffff;

/// Whether a raw value is representable.
pub open spec fn in_range(v: int) -> bool {
    -MAX_RAW <= v <= MAX_RAW
}

/// The representable raw value nearest to `v`.
pub open spec fn clamp(v: int) -> int {
    if v < -MAX_RAW {
        -(MAX_RAW as int)
    } else if v > MAX_RAW {
        MAX_RAW as int
    } else {
        v
    }
}

/// Absolute value of a raw value.
pub open spec fn magnitude(v: int) -> int {
    if v < 0 {
        -v
    } else {
        v
    }
}

/// The smaller of two raw values.
pub open spec fn lesser(a: int, b: int) -> int {
    if a <= b {
        a
    } else {
        b
    }
}

/// The larger of two raw values.
pub open spec fn greater(a: int, b: int) -> int {
    if a >= b {
        a
    } else {
        b
    }
}

/// Raw value of the product of the numbers with raw values `a` and `b`, rounded towards
/// zero to a multiple of 2^-32.
pub open spec fn product(a: int, b: int) -> int {
    if (a < 0) == (b < 0) {
        (magnitude(a) * magnitude(b)) / (ONE_RAW as int)
    } else {
        -((magnitude(a) * magnitude(b)) / (ONE_RAW as int))
    }
}

/// Raw value of the sum of two numbers, clamped to the range.
pub open spec fn plus(a: int, b: int) -> int {
    clamp(a + b)
}

/// Raw value of the difference of two numbers, clamped to the range.
pub open spec fn minus(a: int, b: int) -> int {
    clamp(a - b)
}

/// Raw value of the product of two numbers, rounded towards zero and clamped to the range.
pub open spec fn times(a: int, b: int) -> int {
    clamp(product(a, b))
}

/// A fixed-point number with 32 fractional bits.
#[derive(Clone, Copy, Debug, PartialEq, Eq, Structural)]
pub struct Fixed {
    raw: i64,
}

impl View for Fixed {
    type V = int;

    /// The raw value: the number in units of 2^-32.
    closed spec fn view(&self) -> int {
        self.raw as int
    }
}

impl Fixed {
    /// Every number lies in the symmetric range `-MAX_RAW ..= MAX_RAW`.
    #[verifier::type_invariant]
    pub open spec fn bounded(self) -> bool {
        in_range(self@)
    }

    /// The number whose raw value is `raw`.
    pub closed spec fn with_raw(raw: int) -> Fixed {
        Fixed { raw: raw as i64 }
    }

    /// A number is determined by its raw value.
    pub proof fn lemma_with_raw_of_view(self)
        ensures
            Fixed::with_raw(self@) == self,
    {
    }

    /// `with_raw` has the raw value it was given, when that is representable.
    pub proof fn lemma_view_of_with_raw(raw: int)
        requires
            in_range(raw),
        ensures
            Fixed::with_raw(raw)@ == raw,
    {
    }

    /// The number with the given raw value; the one raw value below the range is clamped.
    pub fn from_raw(raw: i64) -> (r: Fixed)
        ensures
            r@ == clamp(raw as int),
    {
        if raw < -MAX_RAW {
            Fixed { raw: -MAX_RAW }
        } else {
            Fixed { raw }
        }
    }

    /// The raw value.
    pub fn raw(self) -> (r: i64)
        ensures
            r == self@,
            in_range(r as int),
    {
        proof {
            use_type_invariant(&self);
        }
        self.raw
    }

    /// Zero.
    pub fn zero() -> (r: Fixed)
        ensures
            r@ == 0,
    {
        Fixed { raw: 0 }
    }

    /// One.
    pub fn one() -> (r: Fixed)
        ensures
            r@ == ONE_RAW,
    {
        Fixed { raw: ONE_RAW }
    }

    /// One half.
    pub fn half() -> (r: Fixed)
        ensures
            r@ == HALF_RAW,
    {
        Fixed { raw: HALF_RAW }
    }

    /// The whole number `n`.
    pub fn from_int(n: i32) -> (r: Fixed)
        ensures
            r@ == clamp(n * ONE_RAW),
    {
        Fixed::from_parts(n, 0)
    }

    /// The number `whole + fraction / 2^32`.
    pub fn from_parts(whole: i32, fraction: u32) -> (r: Fixed)
        ensures
            r@ == clamp(whole * ONE_RAW + fraction),
    {
        let wide: i128 = (whole as i128) * 0x1_0000_0000 + (fraction as i128);
        Fixed::narrow(wide)
    }

    /// Clamps a wide raw value into the range.
    fn narrow(wide: i128) -> (r: Fixed)
        ensures
            r@ == clamp(wide as int),
    {
        if wide > MAX_RAW as i128 {
            Fixed { raw: MAX_RAW }
        } else if wide < -(MAX_RAW as i128) {
            Fixed { raw: -MAX_RAW }
        } else {
            Fixed { raw: wide as i64 }
        }
    }

    /// Sum, clamped to the range.
    pub fn saturating_add(self, other: Fixed) -> (r: Fixed)
        ensures
            r@ == plus(self@, other@),
    {
        Fixed::narrow(self.raw as i128 + other.raw as i128)
    }

    /// Difference, clamped to the range.
    pub fn saturating_sub(self, other: Fixed) -> (r: Fixed)
        ensures
            r@ == minus(self@, other@),
    {
        Fixed::narrow(self.raw as i128 - other.raw as i128)
    }

    /// Product, rounded towards zero and clamped to the range.
    pub fn saturating_mul(self, other: Fixed) -> (r: Fixed)
        ensures
            r@ == times(self@, other@),
    {
        proof {
            use_type_invariant(&self);
            use_type_invariant(&other);
        }
        let a: u128 = self.abs().raw as u128;
        let b: u128 = other.abs().raw as u128;
        assert(a * b <= 0x7fff_ffff_ffff_ffff * 0x7fff_ffff_ffff_ffff) by (nonlinear_arith)
            requires
                0 <= a <= 0x7fff_ffff_ffff_ffff,
                0 <= b <= 0x7fff_ffff_ffff_ffff,
        ;
        let quotient: u128 = (a * b) / 0x1_0000_0000;
        let signed: i128 = if (self.raw < 0) == (other.raw < 0) {
            quotient as i128
        } else {
            -(quotient as i128)
        };
        Fixed::narrow(signed)
    }

    /// Negation; exact, because the range is symmetric.
    pub fn neg(self) -> (r: Fixed)
        ensures
            r@ == -self@,
    {
        proof {
            use_type_invariant(&self);
        }
        Fixed { raw: -self.raw }
    }

    /// Absolute value; exact, because the range is symmetric.
    pub fn abs(self) -> (r: Fixed)
        ensures
            r@ == magnitude(self@),
    {
        proof {
            use_type_invariant(&self);
        }
        if self.raw < 0 {
            Fixed { raw: -self.raw }
        } else {
            self
        }
    }

    /// The smaller of two numbers.
    pub fn min(self, other: Fixed) -> (r: Fixed)
        ensures
            r@ == lesser(self@, other@),
    {
        if self.raw <= other.raw {
            self
        } else {
            other
        }
    }

    /// The larger of two numbers.
    pub fn max(self, other: Fixed) -> (r: Fixed)
        ensures
            r@ == greater(self@, other@),
    {
        if self.raw >= other.raw {
            self
        } else {
            other
        }
    }

    /// Whether `self` is strictly less than `other`.
    pub fn lt(self, other: Fixed) -> (b: bool)
        ensures
            b == (self@ < other@),
    {
        self.raw < other.raw
    }

    /// Whether `self` is strictly greater than `other`.
    pub fn gt(self, other: Fixed) -> (b: bool)
        ensures
            b == (self@ > other@),
    {
        self.raw > other.raw
    }

    /// Whether the number is zero.
    pub fn is_zero(self) -> (b: bool)
        ensures
            b == (self@ == 0),
    {
        self.raw == 0
    }
}

impl core::ops::Sub for Fixed {
    type Output = Fixed;

    /// `a - b` is the clamped difference.
    fn sub(self, other: Fixed) -> (r: Fixed) {
        self.saturating_sub(other)
    }
}

impl vstd::std_specs::ops::SubSpecImpl for Fixed {
    open spec fn obeys_sub_spec() -> bool {
        true
    }

    open spec fn sub_req(self, other: Fixed) -> bool {
        true
    }

    open spec fn sub_spec(self, other: Fixed) -> Fixed {
        Fixed::with_raw(minus(self@, other@))
    }
}

} // verus!
