//! Fixed-point decimal numbers with eight fractional digits.
//!
//! A `Fixed` holds its value as an integer count of 10^-8 units. Every
//! operation saturates at the bounds of `i64`, so no value ever leaves the
//! representable range and no operation can fail.
use vstd::prelude::*;

verus! {

/// Number of raw units in one whole unit.
pub const SCALE: i64 = 100_000_000;

/// Clamps an integer into the range of `i64`.
pub open spec fn sat(x: int) -> int {
    if x > i64::MAX {
        i64::MAX as int
    } else if x < i64::MIN {
        i64::MIN as int
    } else {
        x
    }
}

/// Integer division rounding toward zero (`b != 0`).
pub open spec fn tdiv(a: int, b: int) -> int {
    if b > 0 {
        if a >= 0 { a / b } else { -((-a) / b) }
    } else {
        if a >= 0 { -(a / (-b)) } else { (-a) / (-b) }
    }
}

/// Bound on the magnitude of the wide intermediate values used below.
pub const WIDE: i128 = 0x4000_0000_0000_0000_0000_0000_0000_0000;

/// Division rounding toward zero on wide integers.
pub fn div_toward_zero(a: i128, b: i128) -> (r: i128)
    requires
        b != 0,
        -WIDE <= a <= WIDE,
        -WIDE <= b <= WIDE,
    ensures
        r == tdiv(a as int, b as int),
{
    let ua: i128 = if a >= 0 { a } else { -a };
    let ub: i128 = if b >= 0 { b } else { -b };
    let q: i128 = ua / ub;
    if (a >= 0) == (b > 0) {
        q
    } else {
        -q
    }
}

/// Narrows a wide integer to `i64`, saturating at its bounds.
pub fn saturate(x: i128) -> (r: i64)
    ensures
        r == sat(x as int),
{
    if x > i64::MAX as i128 {
        i64::MAX
    } else if x < i64::MIN as i128 {
        i64::MIN
    } else {
        x as i64
    }
}

/// A fixed-point decimal: `raw` counts units of 10^-8.
#[derive(Clone, Copy, Debug, PartialEq, Eq, Structural)]
pub struct Fixed {
    pub raw: i64,
}

/// 10 to the power `n`.
pub open spec fn pow10(n: nat) -> int
    decreases n,
{
    if n == 0 { 1 } else { 10 * pow10((n - 1) as nat) }
}

impl Fixed {
    /// Value of `a * b` in raw units.
    pub open spec fn mul_spec(a: int, b: int) -> int {
        sat(tdiv(a * b, SCALE as int))
    }

    /// Value of `a / b` in raw units (`b != 0`).
    pub open spec fn div_spec(a: int, b: int) -> int {
        sat(tdiv(a * SCALE, b))
    }

    pub fn zero() -> (r: Fixed)
        ensures
            r.raw == 0,
    {
        Fixed { raw: 0 }
    }

    pub fn from_raw(raw: i64) -> (r: Fixed)
        ensures
            r.raw == raw,
    {
        Fixed { raw }
    }

    /// The whole number `n`.
    pub fn from_int(n: i64) -> (r: Fixed)
        ensures
            r.raw == sat(n * SCALE),
    {
        Fixed { raw: saturate(n as i128 * SCALE as i128) }
    }

    /// The number `digits * 10^-places`, for instance `from_scaled(5, 2)` is 0.05.
    pub fn from_scaled(digits: i64, places: u32) -> (r: Fixed)
        requires
            places <= 8,
        ensures
            r.raw == sat(digits * pow10((8 - places) as nat)),
    {
        let mut factor: i128 = 1;
        let mut k: u32 = 0;
        while k < 8 - places
            invariant
                places <= 8,
                k <= 8 - places,
                factor == pow10(k as nat),
                factor <= 100_000_000,
            decreases 8 - places - k,
        {
            proof {
                assert(pow10((k + 1) as nat) == 10 * pow10(k as nat));
                lemma_pow10_bound(k as nat);
            }
            factor = factor * 10;
            k = k + 1;
        }
        proof {
            lemma_pow10_bound(k as nat);
            assert(-0x8000_0000_0000_0000 * 100_000_000 <= digits * factor <= 0x7fff_ffff_ffff_ffff * 100_000_000) by (nonlinear_arith)
                requires 1 <= factor <= 100_000_000, i64::MIN <= digits <= i64::MAX;
        }
        Fixed { raw: saturate(digits as i128 * factor) }
    }

    pub fn add(self, o: Fixed) -> (r: Fixed)
        ensures
            r.raw == sat(self.raw + o.raw),
    {
        Fixed { raw: saturate(self.raw as i128 + o.raw as i128) }
    }

    pub fn sub(self, o: Fixed) -> (r: Fixed)
        ensures
            r.raw == sat(self.raw - o.raw),
    {
        Fixed { raw: saturate(self.raw as i128 - o.raw as i128) }
    }

    /// Product, rounded toward zero to eight places.
    pub fn mul(self, o: Fixed) -> (r: Fixed)
        ensures
            r.raw == Fixed::mul_spec(self.raw as int, o.raw as int),
    {
        proof { lemma_mul_i64(self.raw as int, o.raw as int); }
        let p: i128 = self.raw as i128 * o.raw as i128;
        Fixed { raw: saturate(div_toward_zero(p, SCALE as i128)) }
    }

    /// Quotient, rounded toward zero to eight places; zero when `o` is zero.
    pub fn div(self, o: Fixed) -> (r: Fixed)
        ensures
            o.raw == 0 ==> r.raw == 0,
            o.raw != 0 ==> r.raw == Fixed::div_spec(self.raw as int, o.raw as int),
    {
        if o.raw == 0 {
            return Fixed { raw: 0 };
        }
        proof { lemma_mul_i64(self.raw as int, SCALE as int); }
        let p: i128 = self.raw as i128 * SCALE as i128;
        Fixed { raw: saturate(div_toward_zero(p, o.raw as i128)) }
    }

    /// Product with a whole number.
    pub fn mul_int(self, n: i64) -> (r: Fixed)
        ensures
            r.raw == sat(self.raw * n),
    {
        proof { lemma_mul_i64(self.raw as int, n as int); }
        Fixed { raw: saturate(self.raw as i128 * n as i128) }
    }

    pub fn is_positive(self) -> (r: bool)
        ensures
            r == (self.raw > 0),
    {
        self.raw > 0
    }
}

pub proof fn lemma_pow10_bound(n: nat)
    requires
        n <= 8,
    ensures
        1 <= pow10(n) <= 100_000_000,
        n < 8 ==> pow10(n) <= 10_000_000,
{
    reveal_with_fuel(pow10, 9);
    if n == 0 {
    } else if n == 1 {
    } else if n == 2 {
    } else if n == 3 {
    } else if n == 4 {
    } else if n == 5 {
    } else if n == 6 {
    } else if n == 7 {
    } else {
    }
}

/// The product of two `i64` values stays well inside the wide range.
pub proof fn lemma_mul_i64(a: int, b: int)
    requires
        i64::MIN <= a <= i64::MAX,
        i64::MIN <= b <= i64::MAX,
    ensures
        -WIDE <= a * b <= WIDE,
{
    assert(-0x4000_0000_0000_0000_0000_0000_0000_0000 <= a * b <= 0x4000_0000_0000_0000_0000_0000_0000_0000) by (nonlinear_arith)
        requires
            -0x8000_0000_0000_0000 <= a <= 0x7fff_ffff_ffff_ffff,
            -0x8000_0000_0000_0000 <= b <= 0x7fff_ffff_ffff_ffff,
    ;
}

} // verus!
