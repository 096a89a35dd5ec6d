//! Exact decimal amounts, held as a signed mantissa and a decimal scale.
//!
//! The arithmetic itself is done by `rust_decimal`; this module states what
//! the library relies on from it, over the integer value of an amount counted
//! in units of `10^-28`.

use rust_decimal::Decimal;
use vstd::prelude::*;

verus! {

/// The largest number of fractional digits an amount may carry.
pub const MAX_SCALE: u32 = 28;

/// The largest magnitude of a mantissa (96 bits).
pub const MAX_MANTISSA: i128 = 0xFFFF_FFFF_FFFF_FFFF_FFFF_FFFF;

/// `10^n`.
pub open spec fn pow10(n: nat) -> int
    decreases n,
{
    if n == 0 {
        1
    } else {
        10 * pow10((n - 1) as nat)
    }
}

/// The larger of two scales.
pub open spec fn max_scale(a: u32, b: u32) -> u32 {
    if a >= b {
        a
    } else {
        b
    }
}

/// Whether the value `v` (in units of `10^-28`) can be written with exactly
/// `s` fractional digits and a mantissa of at most 96 bits.
pub open spec fn representable_at(v: int, s: u32) -> bool {
    &&& s <= MAX_SCALE
    &&& v % pow10((MAX_SCALE - s) as nat) == 0
    &&& -MAX_MANTISSA <= v / pow10((MAX_SCALE - s) as nat) <= MAX_MANTISSA
}

/// A decimal number `mantissa * 10^-scale`.
#[derive(Clone, Copy, Debug)]
pub struct Amount {
    pub mantissa: i128,
    pub scale: u32,
}

impl Amount {
    /// Within the range of a decimal: a 96-bit mantissa and at most 28
    /// fractional digits.
    pub open spec fn wf(self) -> bool {
        &&& self.scale <= MAX_SCALE
        &&& -MAX_MANTISSA <= self.mantissa <= MAX_MANTISSA
    }

    /// The exact value, in units of `10^-28`.
    pub open spec fn value(self) -> int {
        self.mantissa * pow10((MAX_SCALE - self.scale) as nat)
    }

    /// Whether `self + other` is exact: the sum fits at the larger scale.
    pub open spec fn sum_exact(self, other: Amount) -> bool {
        representable_at(self.value() + other.value(), max_scale(self.scale, other.scale))
    }

    /// Whether `self - other` is exact: the difference fits at the larger scale.
    pub open spec fn diff_exact(self, other: Amount) -> bool {
        representable_at(self.value() - other.value(), max_scale(self.scale, other.scale))
    }

    /// `mantissa * 10^-scale`, or `None` when that is out of a decimal's range.
    pub fn new(mantissa: i128, scale: u32) -> (r: Option<Amount>)
        ensures
            r is Some <==> (scale <= MAX_SCALE && -MAX_MANTISSA <= mantissa <= MAX_MANTISSA),
            r matches Some(a) ==> a.wf() && a.mantissa == mantissa && a.scale == scale,
    {
        if scale <= MAX_SCALE && -MAX_MANTISSA <= mantissa && mantissa <= MAX_MANTISSA {
            Some(Amount { mantissa, scale })
        } else {
            None
        }
    }

    /// Zero, with no fractional digits.
    pub fn zero() -> (r: Amount)
        ensures
            r.wf(),
            r.value() == 0,
            r.mantissa == 0,
            r.scale == 0,
    {
        Amount { mantissa: 0, scale: 0 }
    }
}

/// Relies on `Decimal::checked_add` of rust_decimal: the result is a decimal
/// in range, and it is the exact sum whenever that sum fits at the larger of
/// the two scales (otherwise it may be rounded to fewer digits, or `None`).
/// `Decimal::from_i128_with_scale` does not panic on amounts in range.
#[verifier::external_body]
pub(crate) fn decimal_add(a: Amount, b: Amount) -> (r: Option<Amount>)
    requires
        a.wf(),
        b.wf(),
    ensures
        r matches Some(x) ==> x.wf(),
        a.sum_exact(b) ==> r is Some && r.unwrap().value() == a.value() + b.value(),
{
    let x = Decimal::from_i128_with_scale(a.mantissa, a.scale);
    let y = Decimal::from_i128_with_scale(b.mantissa, b.scale);
    match x.checked_add(y) {
        Some(d) => Some(Amount { mantissa: d.mantissa(), scale: d.scale() }),
        None => None,
    }
}

/// Relies on `Decimal::checked_sub` of rust_decimal: the result is a decimal
/// in range, and it is the exact difference whenever that difference fits at
/// the larger of the two scales (otherwise it may be rounded, or `None`).
#[verifier::external_body]
pub(crate) fn decimal_sub(a: Amount, b: Amount) -> (r: Option<Amount>)
    requires
        a.wf(),
        b.wf(),
    ensures
        r matches Some(x) ==> x.wf(),
        a.diff_exact(b) ==> r is Some && r.unwrap().value() == a.value() - b.value(),
{
    let x = Decimal::from_i128_with_scale(a.mantissa, a.scale);
    let y = Decimal::from_i128_with_scale(b.mantissa, b.scale);
    match x.checked_sub(y) {
        Some(d) => Some(Amount { mantissa: d.mantissa(), scale: d.scale() }),
        None => None,
    }
}

/// Relies on the `Ord` of rust_decimal's `Decimal`, which compares the
/// numeric values whatever the scales.
#[verifier::external_body]
pub(crate) fn decimal_ge(a: Amount, b: Amount) -> (r: bool)
    requires
        a.wf(),
        b.wf(),
    ensures
        r == (a.value() >= b.value()),
{
    Decimal::from_i128_with_scale(a.mantissa, a.scale) >= Decimal::from_i128_with_scale(
        b.mantissa,
        b.scale,
    )
}

} // verus!
