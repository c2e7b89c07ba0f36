//! The currencies a transaction can be denominated in.

use vstd::prelude::*;

verus! {

/// A currency, either one of the common ones by name or any other as its
/// three-letter code.
#[derive(Debug, Clone, Copy, PartialEq, Eq, PartialOrd, Ord)]
pub enum Currency {
    EUR,
    USD,
    JPY,
    GBP,
    AUD,
    CAD,
    CHF,
    CNH,
    HKD,
    NZD,
    Other([char; 3]),
}

} // verus!
