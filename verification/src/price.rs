//! Prices and alert thresholds as fixed-point quantities.

use vstd::prelude::*;
use crate::decimal::{decimal_units, is_decimal, parse_units, ParseError, SCALE};

verus! {

/// A positive price, held as a whole number of units of one
/// hundred-millionth of the currency.
#[derive(Clone, Copy, Debug, PartialEq, Eq)]
pub struct Price {
    units: u64,
}

impl View for Price {
    type V = nat;

    /// The price in units.
    closed spec fn view(&self) -> nat {
        self.units as nat
    }
}

/// What reading `text` as a price gives: its value in units, or the reason
/// for which it is refused.
pub open spec fn read_price(text: Seq<char>) -> Result<nat, ParseError> {
    if !is_decimal(text) {
        Err(ParseError::Malformed)
    } else if decimal_units(text) == 0 {
        Err(ParseError::NotPositive)
    } else if decimal_units(text) > u64::MAX {
        Err(ParseError::OutOfRange)
    } else {
        Ok(decimal_units(text))
    }
}

impl Price {
    /// Every price is above zero.
    #[verifier::type_invariant]
    pub open spec fn is_positive(self) -> bool {
        self@ > 0
    }

    /// The price of `units` units; there is none of zero units.
    pub fn from_units(units: u64) -> (made: Option<Price>)
        ensures
            match made {
                Some(price) => units > 0 && price@ == units,
                None => units == 0,
            },
    {
        if units == 0 {
            None
        } else {
            Some(Price { units })
        }
    }

    /// The price in units, which is never zero.
    pub fn units(&self) -> (units: u64)
        ensures
            units == self@,
            units > 0,
    {
        proof {
            use_type_invariant(self);
        }
        self.units
    }

    /// Reads a decimal text as a price. A text whose value is zero, or less
    /// than one unit, is refused: a price is positive.
    pub fn parse(text: &str) -> (read: Result<Price, ParseError>)
        ensures
            match read {
                Ok(price) => read_price(text@) == Ok::<nat, ParseError>(price@),
                Err(e) => read_price(text@) == Err::<nat, ParseError>(e),
            },
    {
        match parse_units(text) {
            Ok(units) => {
                if units == 0 {
                    Err(ParseError::NotPositive)
                } else {
                    Ok(Price { units })
                }
            },
            Err(e) => Err(e),
        }
    }
}

/// An alert threshold: a fraction above zero and at most one, held as a
/// whole number of hundred-millionths.
#[derive(Clone, Copy, Debug, PartialEq, Eq)]
pub struct Threshold {
    units: u64,
}

impl View for Threshold {
    type V = nat;

    /// The threshold in hundred-millionths.
    closed spec fn view(&self) -> nat {
        self.units as nat
    }
}

/// What reading `text` as a threshold gives: its value in hundred-millionths,
/// or the reason for which it is refused.
pub open spec fn read_threshold(text: Seq<char>) -> Result<nat, ParseError> {
    if !is_decimal(text) {
        Err(ParseError::Malformed)
    } else if decimal_units(text) == 0 {
        Err(ParseError::NotPositive)
    } else if decimal_units(text) > SCALE {
        Err(ParseError::OutOfRange)
    } else {
        Ok(decimal_units(text))
    }
}

impl Threshold {
    /// Every threshold is a fraction above zero and at most one.
    #[verifier::type_invariant]
    pub open spec fn is_fraction(self) -> bool {
        0 < self@ <= SCALE
    }

    /// The threshold of `units` hundred-millionths, where that is a fraction
    /// above zero and at most one.
    pub fn from_units(units: u64) -> (made: Option<Threshold>)
        ensures
            match made {
                Some(threshold) => 0 < units <= SCALE && threshold@ == units,
                None => units == 0 || units > SCALE,
            },
    {
        if units == 0 || units > SCALE {
            None
        } else {
            Some(Threshold { units })
        }
    }

    /// The threshold in hundred-millionths: above zero, at most `SCALE`.
    pub fn units(&self) -> (units: u64)
        ensures
            units == self@,
            0 < units <= SCALE,
    {
        proof {
            use_type_invariant(self);
        }
        self.units
    }

    /// Reads a decimal text as a threshold. Zero is refused as
    /// `NotPositive`, a value above one as `OutOfRange`.
    pub fn parse(text: &str) -> (read: Result<Threshold, ParseError>)
        ensures
            match read {
                Ok(threshold) => read_threshold(text@) == Ok::<nat, ParseError>(threshold@),
                Err(e) => read_threshold(text@) == Err::<nat, ParseError>(e),
            },
    {
        match parse_units(text) {
            Ok(units) => {
                if units == 0 {
                    Err(ParseError::NotPositive)
                } else if units > SCALE {
                    Err(ParseError::OutOfRange)
                } else {
                    Ok(Threshold { units })
                }
            },
            Err(e) => Err(e),
        }
    }
}

} // verus!
