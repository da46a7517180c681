//! Plausibility check on prices, held as integer minor units (cents).
use crate::decimal::DecimalPrice;
use vstd::prelude::*;

verus! {

/// Prices below this many cents (1 000 units) are flagged as unusually low.
pub const LOW_SANITY_CENTS: i64 = 100_000;

/// Prices above this many cents (1 000 000 units) are flagged as unusually high.
pub const HIGH_SANITY_CENTS: i64 = 100_000_000;

/// The low sanity threshold in whole units.
pub const LOW_SANITY_UNITS: u64 = 1_000;

/// The high sanity threshold in whole units.
pub const HIGH_SANITY_UNITS: u64 = 1_000_000;

/// How an accepted price compares with the sanity band.
#[derive(Clone, Copy, Debug, PartialEq, Eq, Structural)]
pub enum PriceFlag {
    Normal,
    UnusuallyLow,
    UnusuallyHigh,
}

/// Why a price was refused.
#[derive(Clone, Copy, Debug, PartialEq, Eq, Structural)]
pub enum PriceRejection {
    /// The price is zero or negative.
    NotPositive,
}

/// The classification of a price given in cents.
pub open spec fn validate_spec(cents: int) -> Result<PriceFlag, PriceRejection> {
    if cents <= 0 {
        Err(PriceRejection::NotPositive)
    } else if cents < LOW_SANITY_CENTS {
        Ok(PriceFlag::UnusuallyLow)
    } else if cents > HIGH_SANITY_CENTS {
        Ok(PriceFlag::UnusuallyHigh)
    } else {
        Ok(PriceFlag::Normal)
    }
}

/// The classification of a decimal price from its exact value: a minus sign
/// or an all-zero magnitude is refused, and the band is compared against the
/// exact magnitude `whole + fraction`, `0 <= fraction < 1`.
pub open spec fn validate_exact_spec(d: DecimalPrice) -> Result<PriceFlag, PriceRejection> {
    if d.negative || (d.whole == 0 && !d.fraction_nonzero) {
        Err(PriceRejection::NotPositive)
    } else if d.whole < LOW_SANITY_UNITS {
        Ok(PriceFlag::UnusuallyLow)
    } else if d.whole > HIGH_SANITY_UNITS || (d.whole == HIGH_SANITY_UNITS && d.fraction_nonzero) {
        Ok(PriceFlag::UnusuallyHigh)
    } else {
        Ok(PriceFlag::Normal)
    }
}

/// Rejects prices that are not above zero and flags those outside
/// `[1 000, 1 000 000]` units, on the exact value read from text rather than
/// on its rounded cents.
pub fn validate_decimal(d: DecimalPrice) -> (r: Result<PriceFlag, PriceRejection>)
    ensures
        r == validate_exact_spec(d),
{
    if d.negative || (d.whole == 0 && !d.fraction_nonzero) {
        Err(PriceRejection::NotPositive)
    } else if d.whole < LOW_SANITY_UNITS {
        Ok(PriceFlag::UnusuallyLow)
    } else if d.whole > HIGH_SANITY_UNITS || (d.whole == HIGH_SANITY_UNITS && d.fraction_nonzero) {
        Ok(PriceFlag::UnusuallyHigh)
    } else {
        Ok(PriceFlag::Normal)
    }
}

/// Rejects non-positive prices; accepts every positive one, flagging those
/// outside `[LOW_SANITY_CENTS, HIGH_SANITY_CENTS]`.
pub fn validate_price(cents: i64) -> (r: Result<PriceFlag, PriceRejection>)
    ensures
        r == validate_spec(cents as int),
        r.is_err() <==> cents <= 0,
{
    if cents <= 0 {
        Err(PriceRejection::NotPositive)
    } else if cents < LOW_SANITY_CENTS {
        Ok(PriceFlag::UnusuallyLow)
    } else if cents > HIGH_SANITY_CENTS {
        Ok(PriceFlag::UnusuallyHigh)
    } else {
        Ok(PriceFlag::Normal)
    }
}

} // verus!
