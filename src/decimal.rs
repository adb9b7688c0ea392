use vstd::prelude::*;
use core::str::FromStr;

verus! {

/// A fixed-point decimal number: `mantissa / 10^scale`.
#[derive(Debug, Clone, Copy, PartialEq, Eq, Structural)]
pub struct Decimal {
    pub mantissa: i128,
    pub scale: u32,
}

impl Decimal {
    pub open spec fn spec_zero() -> Decimal {
        Decimal { mantissa: 0, scale: 0 }
    }

    pub fn zero() -> (r: Decimal)
        ensures
            r == Decimal::spec_zero(),
    {
        Decimal { mantissa: 0, scale: 0 }
    }
}

/// The mantissa and scale of the decimal that a decimal literal denotes,
/// or `None` where the text is no decimal literal.
pub uninterp spec fn decimal_of_text(text: Seq<char>) -> Option<(i128, u32)>;

/// Relies on `<rust_decimal::Decimal as FromStr>::from_str`, which parses a
/// decimal literal (or, failing that, one in scientific notation) and
/// depends on the text alone.
#[verifier::external_body]
fn parse_decimal_text(text: &str) -> (r: Option<(i128, u32)>)
    ensures
        r == decimal_of_text(text@),
{
    match rust_decimal::Decimal::from_str(text) {
        Ok(d) => Some((d.mantissa(), d.scale())),
        Err(_) => None,
    }
}

/// The decimal that `text` denotes, or zero where it denotes none.
pub open spec fn spec_parse_decimal(text: Seq<char>) -> Decimal {
    match decimal_of_text(text) {
        Some(parts) => Decimal { mantissa: parts.0, scale: parts.1 },
        None => Decimal::spec_zero(),
    }
}

/// Parses a decimal literal; zero where the text is none.
pub fn parse_decimal(text: &str) -> (r: Decimal)
    ensures
        r == spec_parse_decimal(text@),
{
    match parse_decimal_text(text) {
        Some(parts) => Decimal { mantissa: parts.0, scale: parts.1 },
        None => Decimal::zero(),
    }
}

} // verus!
