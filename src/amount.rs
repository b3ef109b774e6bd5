//! Exact fixed-point amounts with four fractional digits.

use rust_decimal::Decimal;
use std::str::FromStr;
use vstd::prelude::*;

verus! {

/// Number of fractional decimal digits an amount carries.
pub const SCALE: u32 = 4;

/// Largest magnitude, in units, that a balance may reach: the largest mantissa
/// of a `rust_decimal::Decimal`, so every balance is a decimal at scale `SCALE`.
pub const MAX_UNITS: i128 = 79228162514264337593543950335;

/// Whether a value in units lies in the representable balance range.
pub open spec fn in_range(v: int) -> bool {
    -MAX_UNITS <= v <= MAX_UNITS
}

/// Ten to the power `n`.
pub open spec fn pow10(n: nat) -> int
    decreases n,
{
    if n == 0 {
        1
    } else {
        10 * pow10((n - 1) as nat)
    }
}

/// What `Decimal::from_str` yields for a text, as (mantissa, scale).
pub uninterp spec fn decimal_parts_of(s: Seq<char>) -> Option<(int, int)>;

/// What `Decimal::round_dp` yields for the decimal `mantissa / 10^scale`
/// rounded to `dp` places, as (mantissa, scale).
pub uninterp spec fn rounded_parts_of(mantissa: int, scale: int, dp: int) -> (int, int);

/// Whether (mantissa, scale) is a valid `rust_decimal::Decimal`.
pub open spec fn decimal_parts_ok(m: int, e: int) -> bool {
    &&& 0 <= e <= 28
    &&& -MAX_UNITS <= m <= MAX_UNITS
}

/// Relies on `Decimal::from_str`: parses decimal text into a mantissa and a
/// scale; a decimal's scale is at most 28 and its mantissa fits in 96 bits.
#[verifier::external_body]
fn decimal_parts(s: &str) -> (r: Option<(i128, u32)>)
    ensures
        match r {
            Some((m, e)) => decimal_parts_of(s@) == Some((m as int, e as int)) && decimal_parts_ok(
                m as int,
                e as int,
            ),
            None => decimal_parts_of(s@) is None,
        },
{
    match Decimal::from_str(s) {
        Ok(d) => Some((d.mantissa(), d.scale())),
        Err(_) => None,
    }
}

/// Relies on `Decimal::round_dp` (banker's rounding): a decimal with at most
/// `dp` fractional digits is returned as it is; one with more is rounded to
/// exactly `dp` digits, and its mantissa still fits in 96 bits.
#[verifier::external_body]
fn round_parts(mantissa: i128, scale: u32, dp: u32) -> (r: (i128, u32))
    requires
        decimal_parts_ok(mantissa as int, scale as int),
    ensures
        (r.0 as int, r.1 as int) == rounded_parts_of(mantissa as int, scale as int, dp as int),
        scale <= dp ==> r == (mantissa, scale),
        scale > dp ==> r.1 == dp,
        -MAX_UNITS <= r.0 <= MAX_UNITS,
{
    let d = Decimal::from_i128_with_scale(mantissa, scale).round_dp(dp);
    (d.mantissa(), d.scale())
}

/// The text `Decimal`'s `Display` gives for the decimal `mantissa / 10^scale`.
pub uninterp spec fn decimal_text_of(mantissa: int, scale: int) -> Seq<char>;

/// Relies on `Decimal::from_i128_with_scale` and `Display for Decimal`: the
/// decimal `mantissa / 10^scale` written out with exactly `scale` fractional digits.
#[verifier::external_body]
fn decimal_text(mantissa: i128, scale: u32) -> (r: String)
    requires
        decimal_parts_ok(mantissa as int, scale as int),
    ensures
        r@ == decimal_text_of(mantissa as int, scale as int),
{
    format!("{}", Decimal::from_i128_with_scale(mantissa, scale))
}

/// The value in units of the decimal (mantissa, scale), once rounded to
/// `SCALE` fractional digits.
pub open spec fn units_of_parts(m: int, e: int) -> int {
    if e <= SCALE {
        m * pow10((SCALE - e) as nat)
    } else {
        let (rm, re) = rounded_parts_of(m, e, SCALE as int);
        rm * pow10((SCALE - re) as nat)
    }
}

/// The amount that decimal text denotes, rounded to `SCALE` fractional
/// digits, when it parses and lies in range.
pub open spec fn parsed_units(s: Seq<char>) -> Option<int> {
    match decimal_parts_of(s) {
        Some((m, e)) => if in_range(units_of_parts(m, e)) {
            Some(units_of_parts(m, e))
        } else {
            None
        },
        None => None,
    }
}

/// Why an amount column could not be read.
#[derive(Clone, Copy, Debug, PartialEq, Eq, Structural)]
pub enum AmountError {
    /// The text is not a decimal, or the amount is out of range.
    Invalid,
}

/// A money amount: an exact count of ten-thousandths.
#[derive(Clone, Copy, Debug, PartialEq, Eq, Structural)]
pub struct Amount {
    units: i128,
}

impl View for Amount {
    type V = int;

    closed spec fn view(&self) -> int {
        self.units as int
    }
}

impl Amount {
    /// The amount of `units` ten-thousandths.
    pub fn from_units(units: i128) -> (r: Amount)
        ensures
            r@ == units as int,
    {
        Amount { units }
    }

    /// The amount as a count of ten-thousandths.
    pub fn units(&self) -> (r: i128)
        ensures
            r as int == self@,
    {
        self.units
    }

    /// The amount zero.
    pub fn zero() -> (r: Amount)
        ensures
            r@ == 0,
    {
        Amount { units: 0 }
    }

    /// The amount written with exactly `SCALE` fractional digits, as in
    /// `100.5000`; `None` when it lies outside the balance range.
    pub fn to_decimal_string(&self) -> (r: Option<String>)
        ensures
            match r {
                Some(t) => in_range(self@) && t@ == decimal_text_of(self@, SCALE as int),
                None => !in_range(self@),
            },
    {
        if -MAX_UNITS <= self.units && self.units <= MAX_UNITS {
            Some(decimal_text(self.units, SCALE))
        } else {
            None
        }
    }

    /// The decimal `mantissa / 10^scale`, rounded to `SCALE` fractional digits,
    /// as an amount; `None` when it lies outside the balance range.
    pub fn from_decimal_parts(mantissa: i128, scale: u32) -> (r: Option<Amount>)
        requires
            decimal_parts_ok(mantissa as int, scale as int),
        ensures
            match r {
                Some(a) => in_range(units_of_parts(mantissa as int, scale as int)) && a@
                    == units_of_parts(mantissa as int, scale as int),
                None => !in_range(units_of_parts(mantissa as int, scale as int)),
            },
    {
        let (m, e) = round_parts(mantissa, scale, SCALE);
        let factor: i128 = if e == 0 {
            10000
        } else if e == 1 {
            1000
        } else if e == 2 {
            100
        } else if e == 3 {
            10
        } else {
            1
        };
        proof {
            reveal_with_fuel(pow10, 5);
            assert(factor as int == pow10((SCALE - e) as nat));
            assert(-MAX_UNITS * 10000 <= m * factor <= MAX_UNITS * 10000) by (nonlinear_arith)
                requires
                    -MAX_UNITS <= m <= MAX_UNITS,
                    1 <= factor <= 10000,
            ;
        }
        let units: i128 = m * factor;
        if -MAX_UNITS <= units && units <= MAX_UNITS {
            Some(Amount { units })
        } else {
            None
        }
    }

    /// Parses decimal text (as `rust_decimal` reads it), rounding to `SCALE`
    /// fractional digits; `None` when the text is no decimal or the amount is
    /// out of range.
    pub fn parse(s: &str) -> (r: Option<Amount>)
        ensures
            match r {
                Some(a) => parsed_units(s@) == Some(a@),
                None => parsed_units(s@) is None,
            },
    {
        match decimal_parts(s) {
            Some((m, e)) => Amount::from_decimal_parts(m, e),
            None => None,
        }
    }

    /// Reads an amount column: empty text means the row carries no amount;
    /// any other text must be a decimal in range.
    pub fn parse_field(text: &str) -> (r: Result<Option<Amount>, AmountError>)
        ensures
            text@.len() == 0 ==> r == Ok::<Option<Amount>, AmountError>(None),
            text@.len() != 0 ==> match r {
                Ok(Some(a)) => parsed_units(text@) == Some(a@),
                Ok(None) => false,
                Err(_) => parsed_units(text@) is None,
            },
    {
        if text.is_empty() {
            Ok(None)
        } else {
            match Amount::parse(text) {
                Some(a) => Ok(Some(a)),
                None => Err(AmountError::Invalid),
            }
        }
    }
}

} // verus!
