//! Decimal fixed-point numbers.
//!
//! Every coordinate, length, colour channel and matrix entry of the library is
//! a [`Fixed`]: a signed count of millionths. Arithmetic is exact where the
//! result is representable, truncates products and quotients towards zero, and
//! saturates at the ends of the 64-bit range, so no operation can fail.

use vstd::prelude::*;

verus! {

/// Raw units per whole.
pub const SCALE: i64 = 1_000_000;

/// The nearest value of the 64-bit range.
pub open spec fn clamp(v: int) -> int {
    if v < i64::MIN {
        i64::MIN as int
    } else if v > i64::MAX {
        i64::MAX as int
    } else {
        v
    }
}

/// The absolute value of an integer.
pub open spec fn magnitude(v: int) -> int {
    if v < 0 {
        -v
    } else {
        v
    }
}

/// The raw product of two raw values: the exact product divided by `SCALE`,
/// truncated towards zero.
pub open spec fn raw_product(a: int, b: int) -> int {
    let m = (magnitude(a) * magnitude(b)) / (SCALE as int);
    if (a < 0) != (b < 0) {
        -m
    } else {
        m
    }
}

/// The raw quotient of two raw values: the exact quotient scaled by `SCALE`,
/// truncated towards zero. A zero divisor gives the largest magnitude with the
/// sign of the dividend, and zero for a zero dividend.
pub open spec fn raw_quotient(a: int, b: int) -> int {
    if b == 0 {
        if a > 0 {
            i64::MAX as int
        } else if a < 0 {
            i64::MIN as int
        } else {
            0
        }
    } else {
        let m = (magnitude(a) * (SCALE as int)) / magnitude(b);
        if (a < 0) != (b < 0) {
            -m
        } else {
            m
        }
    }
}

/// `r` is the integer square root of `n`.
pub open spec fn is_root(r: int, n: int) -> bool {
    0 <= r && r * r <= n && n < (r + 1) * (r + 1)
}

/// The integer square root of a natural number: the largest `r` with
/// `r * r <= n`.
pub open spec fn root(n: int) -> int {
    choose|r: int| is_root(r, n)
}

/// At most one number is the integer square root of `n`.
pub proof fn lemma_root_unique(r: int, s: int, n: int)
    requires
        is_root(r, n),
        is_root(s, n),
    ensures
        r == s,
{
    if r < s {
        assert((r + 1) * (r + 1) <= s * s) by (nonlinear_arith)
            requires
                0 <= r,
                r + 1 <= s,
        ;
    } else if s < r {
        assert((s + 1) * (s + 1) <= r * r) by (nonlinear_arith)
            requires
                0 <= s,
                s + 1 <= r,
        ;
    }
}

/// Whatever satisfies `is_root` is `root`.
pub proof fn lemma_root_is(r: int, n: int)
    requires
        is_root(r, n),
    ensures
        root(n) == r,
{
    lemma_root_unique(root(n), r, n);
}

/// Integer square root by bisection.
pub fn isqrt(n: u128) -> (r: u64)
    ensures
        is_root(r as int, n as int),
        r as int == root(n as int),
{
    let mut lo: u128 = 0;
    let mut hi: u128 = 0x1_0000_0000_0000_0000;
    assert(hi * hi > n) by (nonlinear_arith)
        requires
            hi == 0x1_0000_0000_0000_0000u128,
            n <= u128::MAX,
    ;
    while hi - lo > 1
        invariant
            lo < hi <= 0x1_0000_0000_0000_0000,
            lo * lo <= n,
            n < hi * hi,
        decreases hi - lo,
    {
        let mid: u128 = lo + (hi - lo) / 2;
        assert(mid * mid <= 0xffff_ffff_ffff_ffff * 0xffff_ffff_ffff_ffff) by (nonlinear_arith)
            requires
                0 <= mid <= 0xffff_ffff_ffff_ffff,
        ;
        if mid * mid <= n {
            lo = mid;
        } else {
            hi = mid;
        }
    }
    proof {
        lemma_root_is(lo as int, n as int);
    }
    lo as u64
}

/// The magnitude of a 64-bit value, which may not fit in 64 signed bits.
fn magnitude_of(v: i64) -> (m: u128)
    ensures
        m as int == magnitude(v as int),
        m <= 0x8000_0000_0000_0000,
{
    if v < 0 {
        (-(v as i128)) as u128
    } else {
        v as u128
    }
}

/// Gives a magnitude its sign and saturates it into the 64-bit range.
fn signed_clamped(m: u128, negative: bool) -> (v: i64)
    ensures
        v as int == clamp(
            if negative {
                -(m as int)
            } else {
                m as int
            },
        ),
{
    if negative {
        if m >= 0x8000_0000_0000_0000 {
            i64::MIN
        } else {
            -(m as i64)
        }
    } else {
        if m > 0x7fff_ffff_ffff_ffff {
            i64::MAX
        } else {
            m as i64
        }
    }
}

/// A signed decimal fixed-point number with six fractional digits.
#[derive(Clone, Copy, Debug, PartialEq, Eq, Structural)]
pub struct Fixed {
    /// The value in millionths.
    pub micros: i64,
}

impl Fixed {
    /// The number zero.
    pub open spec fn spec_zero() -> Fixed {
        Fixed { micros: 0 }
    }

    /// The number one.
    pub open spec fn spec_one() -> Fixed {
        Fixed { micros: SCALE }
    }

    /// The whole number `whole`, saturated.
    pub open spec fn spec_from_int(whole: int) -> Fixed {
        Fixed { micros: clamp(whole * SCALE) as i64 }
    }

    /// The saturated sum.
    pub open spec fn spec_plus(self, rhs: Fixed) -> Fixed {
        Fixed { micros: clamp(self.micros + rhs.micros) as i64 }
    }

    /// The saturated difference.
    pub open spec fn spec_minus(self, rhs: Fixed) -> Fixed {
        Fixed { micros: clamp(self.micros - rhs.micros) as i64 }
    }

    /// The saturated negation.
    pub open spec fn spec_negated(self) -> Fixed {
        Fixed { micros: clamp(-self.micros) as i64 }
    }

    /// The saturated absolute value.
    pub open spec fn spec_abs(self) -> Fixed {
        Fixed { micros: clamp(magnitude(self.micros as int)) as i64 }
    }

    /// The saturated product, truncated towards zero.
    pub open spec fn spec_times(self, rhs: Fixed) -> Fixed {
        Fixed { micros: clamp(raw_product(self.micros as int, rhs.micros as int)) as i64 }
    }

    /// The saturated quotient, truncated towards zero.
    pub open spec fn spec_over(self, rhs: Fixed) -> Fixed {
        Fixed { micros: clamp(raw_quotient(self.micros as int, rhs.micros as int)) as i64 }
    }

    /// The larger of two numbers.
    pub open spec fn spec_max(self, rhs: Fixed) -> Fixed {
        if self.micros >= rhs.micros {
            self
        } else {
            rhs
        }
    }

    /// The smaller of two numbers.
    pub open spec fn spec_min(self, rhs: Fixed) -> Fixed {
        if self.micros <= rhs.micros {
            self
        } else {
            rhs
        }
    }

    /// The saturated length of the vector `(self, rhs)`, rounded down.
    pub open spec fn spec_hypot(self, rhs: Fixed) -> Fixed {
        Fixed { micros: clamp(root(self.micros * self.micros + rhs.micros * rhs.micros)) as i64 }
    }

    /// The whole part, truncated towards zero.
    pub open spec fn spec_trunc(self) -> int {
        if self.micros < 0 {
            -(magnitude(self.micros as int) / (SCALE as int))
        } else {
            (self.micros as int) / (SCALE as int)
        }
    }

    /// The largest representable number.
    pub open spec fn spec_largest() -> Fixed {
        Fixed { micros: i64::MAX }
    }

    /// The smallest representable number.
    pub open spec fn spec_smallest() -> Fixed {
        Fixed { micros: i64::MIN }
    }

    /// The number with the given raw value in millionths.
    pub fn from_micros(micros: i64) -> (r: Fixed)
        ensures
            r.micros == micros,
    {
        Fixed { micros }
    }

    /// The whole number `whole`; saturates beyond about nine million million.
    pub fn from_int(whole: i64) -> (r: Fixed)
        ensures
            r == Fixed::spec_from_int(whole as int),
    {
        let wide: i128 = (whole as i128) * 1_000_000i128;
        if wide < i64::MIN as i128 {
            Fixed { micros: i64::MIN }
        } else if wide > i64::MAX as i128 {
            Fixed { micros: i64::MAX }
        } else {
            Fixed { micros: wide as i64 }
        }
    }

    /// Zero.
    pub fn zero() -> (r: Fixed)
        ensures
            r == Fixed::spec_zero(),
    {
        Fixed { micros: 0 }
    }

    /// One.
    pub fn one() -> (r: Fixed)
        ensures
            r == Fixed::spec_one(),
    {
        Fixed { micros: SCALE }
    }

    /// The largest representable number.
    pub fn largest() -> (r: Fixed)
        ensures
            r == Fixed::spec_largest(),
    {
        Fixed { micros: i64::MAX }
    }

    /// The smallest representable number.
    pub fn smallest() -> (r: Fixed)
        ensures
            r == Fixed::spec_smallest(),
    {
        Fixed { micros: i64::MIN }
    }

    /// Saturating addition.
    pub fn plus(self, rhs: Fixed) -> (r: Fixed)
        ensures
            r == self.spec_plus(rhs),
    {
        let wide: i128 = self.micros as i128 + rhs.micros as i128;
        Fixed { micros: narrow(wide) }
    }

    /// Saturating subtraction.
    pub fn minus(self, rhs: Fixed) -> (r: Fixed)
        ensures
            r == self.spec_minus(rhs),
    {
        let wide: i128 = self.micros as i128 - rhs.micros as i128;
        Fixed { micros: narrow(wide) }
    }

    /// Saturating negation.
    pub fn negated(self) -> (r: Fixed)
        ensures
            r == self.spec_negated(),
    {
        let wide: i128 = -(self.micros as i128);
        Fixed { micros: narrow(wide) }
    }

    /// Saturating absolute value.
    pub fn abs(self) -> (r: Fixed)
        ensures
            r == self.spec_abs(),
    {
        Fixed { micros: signed_clamped(magnitude_of(self.micros), false) }
    }

    /// Saturating multiplication, truncated towards zero.
    pub fn times(self, rhs: Fixed) -> (r: Fixed)
        ensures
            r == self.spec_times(rhs),
    {
        let a: u128 = magnitude_of(self.micros);
        let b: u128 = magnitude_of(rhs.micros);
        assert(a * b <= 0x8000_0000_0000_0000 * 0x8000_0000_0000_0000) by (nonlinear_arith)
            requires
                0 <= a <= 0x8000_0000_0000_0000,
                0 <= b <= 0x8000_0000_0000_0000,
        ;
        let m: u128 = (a * b) / 1_000_000u128;
        let negative = (self.micros < 0) != (rhs.micros < 0);
        Fixed { micros: signed_clamped(m, negative) }
    }

    /// Saturating division, truncated towards zero; a zero divisor saturates
    /// with the sign of the dividend.
    pub fn over(self, rhs: Fixed) -> (r: Fixed)
        ensures
            r == self.spec_over(rhs),
    {
        if rhs.micros == 0 {
            if self.micros > 0 {
                Fixed { micros: i64::MAX }
            } else if self.micros < 0 {
                Fixed { micros: i64::MIN }
            } else {
                Fixed { micros: 0 }
            }
        } else {
            let a: u128 = magnitude_of(self.micros);
            let b: u128 = magnitude_of(rhs.micros);
            let m: u128 = (a * 1_000_000u128) / b;
            let negative = (self.micros < 0) != (rhs.micros < 0);
            Fixed { micros: signed_clamped(m, negative) }
        }
    }

    /// The larger of two numbers.
    pub fn max(self, rhs: Fixed) -> (r: Fixed)
        ensures
            r == self.spec_max(rhs),
    {
        if self.micros >= rhs.micros {
            self
        } else {
            rhs
        }
    }

    /// The smaller of two numbers.
    pub fn min(self, rhs: Fixed) -> (r: Fixed)
        ensures
            r == self.spec_min(rhs),
    {
        if self.micros <= rhs.micros {
            self
        } else {
            rhs
        }
    }

    /// The length of the vector `(self, rhs)`, rounded down and saturated.
    pub fn hypot(self, rhs: Fixed) -> (r: Fixed)
        ensures
            r == self.spec_hypot(rhs),
    {
        let a: u128 = magnitude_of(self.micros);
        let b: u128 = magnitude_of(rhs.micros);
        assert(a * a <= 0x8000_0000_0000_0000 * 0x8000_0000_0000_0000) by (nonlinear_arith)
            requires
                0 <= a <= 0x8000_0000_0000_0000,
        ;
        assert(b * b <= 0x8000_0000_0000_0000 * 0x8000_0000_0000_0000) by (nonlinear_arith)
            requires
                0 <= b <= 0x8000_0000_0000_0000,
        ;
        assert(a * a == self.micros * self.micros) by (nonlinear_arith)
            requires
                a == magnitude(self.micros as int),
        ;
        assert(b * b == rhs.micros * rhs.micros) by (nonlinear_arith)
            requires
                b == magnitude(rhs.micros as int),
        ;
        let s: u64 = isqrt(a * a + b * b);
        Fixed { micros: signed_clamped(s as u128, false) }
    }

    /// Whether `self` is strictly below `rhs`.
    pub fn lt(self, rhs: Fixed) -> (r: bool)
        ensures
            r == (self.micros < rhs.micros),
    {
        self.micros < rhs.micros
    }

    /// The whole part, truncated towards zero.
    pub fn trunc(self) -> (r: i64)
        ensures
            r as int == self.spec_trunc(),
    {
        let m: u128 = magnitude_of(self.micros) / 1_000_000u128;
        signed_clamped(m, self.micros < 0)
    }
}

/// Saturates a wide value into the 64-bit range.
fn narrow(wide: i128) -> (v: i64)
    ensures
        v as int == clamp(wide as int),
{
    if wide < i64::MIN as i128 {
        i64::MIN
    } else if wide > i64::MAX as i128 {
        i64::MAX
    } else {
        wide as i64
    }
}

/// Multiplying by one changes nothing, on either side.
pub proof fn lemma_times_one(x: Fixed)
    ensures
        x.spec_times(Fixed::spec_one()) == x,
        Fixed::spec_one().spec_times(x) == x,
{
    let m = magnitude(x.micros as int);
    assert((m * 1_000_000) / 1_000_000 == m) by (nonlinear_arith);
    assert((1_000_000 * m) / 1_000_000 == m) by (nonlinear_arith);
}

/// Multiplying by zero gives zero, on either side.
pub proof fn lemma_times_zero(x: Fixed)
    ensures
        x.spec_times(Fixed::spec_zero()) == Fixed::spec_zero(),
        Fixed::spec_zero().spec_times(x) == Fixed::spec_zero(),
{
    let m = magnitude(x.micros as int);
    assert(m * 0 == 0) by (nonlinear_arith);
    assert(0 * m == 0) by (nonlinear_arith);
}

/// Adding zero changes nothing, on either side.
pub proof fn lemma_plus_zero(x: Fixed)
    ensures
        x.spec_plus(Fixed::spec_zero()) == x,
        Fixed::spec_zero().spec_plus(x) == x,
{
}

} // verus!
