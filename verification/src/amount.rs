//! Fixed-point decimal amounts.
//!
//! Prices, sizes, cash, rates and multipliers are all carried as a signed
//! count of hundred-millionths, so that every formula of the engine is exact
//! integer arithmetic with one stated rounding rule: quotients are rounded
//! toward zero. A result that does not fit the 64-bit carrier is reported as
//! absent instead of wrapping.

use vstd::prelude::*;

verus! {

/// Raw units per whole unit: an amount carries eight decimal places.
pub const SCALE: i64 = 100_000_000;

/// Absolute value of an integer.
pub open spec fn magnitude(a: int) -> int {
    if a < 0 {
        -a
    } else {
        a
    }
}

/// Quotient of `a` by `b`, rounded toward zero. Unspecified use for `b == 0`.
pub open spec fn trunc_div(a: int, b: int) -> int
    recommends
        b != 0,
{
    let q = magnitude(a) / magnitude(b);
    if (a < 0) != (b < 0) {
        -q
    } else {
        q
    }
}

/// Whether a raw value can be carried by an [`Amount`].
pub open spec fn fits(v: int) -> bool {
    i64::MIN <= v <= i64::MAX
}

/// A raw value as an amount's model, absent when it cannot be carried.
pub open spec fn narrow(v: int) -> Option<int> {
    if fits(v) {
        Some(v)
    } else {
        None
    }
}

/// Raw product of two amounts: `a * b / SCALE`, rounded toward zero.
pub open spec fn product(a: int, b: int) -> int {
    trunc_div(a * b, SCALE as int)
}

/// Raw quotient of two amounts: `a * SCALE / b`, rounded toward zero.
pub open spec fn quotient(a: int, b: int) -> int
    recommends
        b != 0,
{
    trunc_div(a * SCALE, b)
}

/// Whether two raw values are both positive or both negative.
pub open spec fn same_sign(a: int, b: int) -> bool {
    (a > 0 && b > 0) || (a < 0 && b < 0)
}

/// Size-weighted average of two prices: `(sa * pa + sb * pb) / (sa + sb)`,
/// rounded toward zero.
pub open spec fn weighted_mean(sa: int, pa: int, sb: int, pb: int) -> int
    recommends
        sa + sb != 0,
{
    trunc_div(sa * pa + sb * pb, sa + sb)
}

/// The product of two 64-bit values lies within `[-(2^126 - 2^63), 2^126]`,
/// and reaches `2^126` only when both are the least 64-bit value.
pub proof fn lemma_product_bounds(a: int, b: int)
    requires
        fits(a),
        fits(b),
    ensures
        -0x4000_0000_0000_0000_0000_0000_0000_0000 + 0x8000_0000_0000_0000 <= a * b
            <= 0x4000_0000_0000_0000_0000_0000_0000_0000,
        !(a == i64::MIN && b == i64::MIN) ==> a * b
            <= 0x4000_0000_0000_0000_0000_0000_0000_0000 - 0x8000_0000_0000_0000,
{
    assert(-0x4000_0000_0000_0000_0000_0000_0000_0000 + 0x8000_0000_0000_0000 <= a * b
        <= 0x4000_0000_0000_0000_0000_0000_0000_0000) by (nonlinear_arith)
        requires
            -0x8000_0000_0000_0000 <= a <= 0x7fff_ffff_ffff_ffff,
            -0x8000_0000_0000_0000 <= b <= 0x7fff_ffff_ffff_ffff,
    ;
    if !(a == i64::MIN && b == i64::MIN) {
        assert(a * b <= 0x4000_0000_0000_0000_0000_0000_0000_0000 - 0x8000_0000_0000_0000)
            by (nonlinear_arith)
            requires
                -0x8000_0000_0000_0000 <= a <= 0x7fff_ffff_ffff_ffff,
                -0x8000_0000_0000_0000 <= b <= 0x7fff_ffff_ffff_ffff,
                a != -0x8000_0000_0000_0000 || b != -0x8000_0000_0000_0000,
        ;
    }
}

/// A weighted mean of two equal prices is that price.
pub proof fn lemma_weighted_mean_of_equal_prices(sa: int, sb: int, p: int)
    requires
        sa + sb != 0,
    ensures
        weighted_mean(sa, p, sb, p) == p,
{
    let d = sa + sb;
    assert(sa * p + sb * p == p * d) by (nonlinear_arith)
        requires
            d == sa + sb,
    ;
    lemma_trunc_div_of_multiple(p, d);
}

/// Dividing a multiple of `d` by `d` gives the other factor back.
pub proof fn lemma_trunc_div_of_multiple(p: int, d: int)
    requires
        d != 0,
    ensures
        trunc_div(p * d, d) == p,
{
    let m = magnitude(d);
    let n = magnitude(p);
    assert(magnitude(p * d) == n * m) by (nonlinear_arith)
        requires
            m == magnitude(d),
            n == magnitude(p),
    ;
    assert((n * m) / m == n) by (nonlinear_arith)
        requires
            m > 0,
    ;
    assert(((p * d) < 0) == ((p < 0) != (d < 0)) || p == 0) by (nonlinear_arith)
        requires
            d != 0,
    ;
}

/// Euclidean division by a negative divisor negates the quotient by its
/// magnitude, for a dividend that is not negative.
pub proof fn lemma_euclid_by_negative(x: int, m: int)
    requires
        x >= 0,
        m > 0,
    ensures
        x / (-m) == -(x / m),
{
    let q = x / m;
    let r = x % m;
    assert(x == m * q + r && 0 <= r < m) by (nonlinear_arith)
        requires
            m > 0,
            q == x / m,
            r == x % m,
    ;
    let n = -m;
    assert(x / n == -q) by (nonlinear_arith)
        requires
            x == (-n) * q + r,
            0 <= r < -n,
            n < 0,
    ;
}

/// Truncating division on 128-bit integers.
pub fn div_toward_zero(a: i128, b: i128) -> (q: i128)
    requires
        b != 0,
        a > i128::MIN,
    ensures
        q == trunc_div(a as int, b as int),
{
    proof {
        if b < 0 {
            lemma_euclid_by_negative(magnitude(a as int), -(b as int));
        }
    }
    a / b
}

/// A decimal number with eight fractional digits, held as its raw count of
/// hundred-millionths.
#[derive(Clone, Copy, Debug, PartialEq, Eq, Structural)]
pub struct Amount {
    pub raw: i64,
}

impl View for Amount {
    type V = int;

    open spec fn view(&self) -> int {
        self.raw as int
    }
}

impl DeepView for Amount {
    type V = int;

    open spec fn deep_view(&self) -> int {
        self.raw as int
    }
}

/// Narrows a 128-bit raw value to an amount.
pub fn narrow_raw(v: i128) -> (r: Option<Amount>)
    ensures
        r.deep_view() == narrow(v as int),
{
    if v < -0x8000_0000_0000_0000 || v > 0x7fff_ffff_ffff_ffff {
        None
    } else {
        Some(Amount { raw: v as i64 })
    }
}

impl Amount {
    /// The amount with the given raw count of hundred-millionths.
    pub fn from_raw(raw: i64) -> (r: Amount)
        ensures
            r@ == raw,
    {
        Amount { raw }
    }

    /// The amount zero.
    pub fn zero() -> (r: Amount)
        ensures
            r@ == 0,
    {
        Amount { raw: 0 }
    }

    /// A whole number of units, absent when out of range.
    pub fn from_units(units: i64) -> (r: Option<Amount>)
        ensures
            r.deep_view() == narrow(units * SCALE),
    {
        proof {
            lemma_product_bounds(units as int, SCALE as int);
        }
        let wide: i128 = units as i128 * SCALE as i128;
        narrow_raw(wide)
    }

    /// Sum of two amounts, absent when out of range.
    pub fn checked_add(self, other: Amount) -> (r: Option<Amount>)
        ensures
            r.deep_view() == narrow(self@ + other@),
    {
        narrow_raw(self.raw as i128 + other.raw as i128)
    }

    /// Difference of two amounts, absent when out of range.
    pub fn checked_sub(self, other: Amount) -> (r: Option<Amount>)
        ensures
            r.deep_view() == narrow(self@ - other@),
    {
        narrow_raw(self.raw as i128 - other.raw as i128)
    }

    /// The amount negated, absent when out of range.
    pub fn checked_neg(self) -> (r: Option<Amount>)
        ensures
            r.deep_view() == narrow(-self@),
    {
        narrow_raw(-(self.raw as i128))
    }

    /// Product of two amounts rounded toward zero, absent when out of range.
    pub fn checked_mul(self, other: Amount) -> (r: Option<Amount>)
        ensures
            r.deep_view() == narrow(product(self@, other@)),
    {
        narrow_raw(wide_product(self, other))
    }

    /// Quotient of two amounts rounded toward zero, absent when the divisor
    /// is zero or the result is out of range.
    pub fn checked_div(self, other: Amount) -> (r: Option<Amount>)
        ensures
            r.deep_view() == if other@ == 0 {
                None
            } else {
                narrow(quotient(self@, other@))
            },
    {
        if other.raw == 0 {
            None
        } else {
            proof {
                lemma_product_bounds(self@, SCALE as int);
            }
            let scaled: i128 = self.raw as i128 * SCALE as i128;
            narrow_raw(div_toward_zero(scaled, other.raw as i128))
        }
    }

    /// Whether both amounts are positive or both are negative.
    pub fn same_sign(self, other: Amount) -> (r: bool)
        ensures
            r == same_sign(self@, other@),
    {
        (self.raw > 0 && other.raw > 0) || (self.raw < 0 && other.raw < 0)
    }

    /// Size-weighted average of two prices, for sizes that do not cancel;
    /// absent when the sizes cancel or the result is out of range.
    pub fn weighted_mean(size_a: Amount, price_a: Amount, size_b: Amount, price_b: Amount) -> (r:
        Option<Amount>)
        ensures
            r.deep_view() == if size_a@ + size_b@ == 0 {
                None
            } else {
                narrow(weighted_mean(size_a@, price_a@, size_b@, price_b@))
            },
    {
        let total: i128 = size_a.raw as i128 + size_b.raw as i128;
        if total == 0 {
            None
        } else if price_a.raw == price_b.raw {
            proof {
                lemma_weighted_mean_of_equal_prices(size_a@, size_b@, price_a@);
            }
            Some(price_a)
        } else {
            proof {
                lemma_product_bounds(size_a@, price_a@);
                lemma_product_bounds(size_b@, price_b@);
            }
            let left: i128 = size_a.raw as i128 * price_a.raw as i128;
            let right: i128 = size_b.raw as i128 * price_b.raw as i128;
            narrow_raw(div_toward_zero(left + right, total))
        }
    }
}

/// A quotient rounded toward zero is no larger in magnitude than its
/// dividend.
pub proof fn lemma_trunc_div_shrinks(a: int, b: int)
    requires
        b != 0,
    ensures
        magnitude(trunc_div(a, b)) <= magnitude(a),
{
    let x = magnitude(a);
    let m = magnitude(b);
    assert(0 <= x / m <= x) by (nonlinear_arith)
        requires
            x >= 0,
            m >= 1,
    ;
}

/// The product of a 64-bit value and one more than a 64-bit rate, in raw
/// units, stays within 128 bits.
pub proof fn lemma_rate_product_bounds(a: int, rate: int)
    requires
        fits(a),
        fits(rate),
    ensures
        -0x7fff_ffff_ffff_ffff_ffff_ffff_ffff_ffff <= a * (SCALE + rate)
            <= 0x7fff_ffff_ffff_ffff_ffff_ffff_ffff_ffff,
{
    let b = SCALE + rate;
    assert(-0x7fff_ffff_ffff_ffff_ffff_ffff_ffff_ffff <= a * b
        <= 0x7fff_ffff_ffff_ffff_ffff_ffff_ffff_ffff) by (nonlinear_arith)
        requires
            -0x8000_0000_0000_0000 <= a <= 0x7fff_ffff_ffff_ffff,
            -0x8000_0000_0000_0000 + 100_000_000 <= b <= 0x7fff_ffff_ffff_ffff + 100_000_000,
    ;
}

/// Unnarrowed product of two amounts, rounded toward zero.
pub fn wide_product(a: Amount, b: Amount) -> (r: i128)
    ensures
        r == product(a@, b@),
        -0x4000_0000_0000_0000_0000_0000_0000_0000 <= r
            <= 0x4000_0000_0000_0000_0000_0000_0000_0000,
{
    proof {
        lemma_product_bounds(a@, b@);
        lemma_trunc_div_shrinks(a@ * b@, SCALE as int);
    }
    let wide: i128 = a.raw as i128 * b.raw as i128;
    div_toward_zero(wide, SCALE as i128)
}

/// Unnarrowed raw value of `a * (SCALE + rate)`: an amount times one plus a
/// rate, before the division by the scale.
pub fn wide_gross(a: Amount, rate: Amount) -> (r: i128)
    ensures
        r == a@ * (SCALE + rate@),
        r > i128::MIN,
{
    proof {
        lemma_rate_product_bounds(a@, rate@);
    }
    a.raw as i128 * (SCALE as i128 + rate.raw as i128)
}

} // verus!
