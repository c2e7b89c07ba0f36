//! Country codes and the per-country IBAN length table.

use vstd::prelude::*;

verus! {

/// A two-letter ISO 3166-1 alpha-2 country code, for the countries this
/// crate names directly. Codes outside this enumeration can still appear in
/// an IBAN; they are looked up as plain character pairs.
#[derive(Debug, Clone, Copy, PartialEq, Eq, Structural)]
pub enum CountryCode {
    DE,
    FR,
    GB,
}

/// The character pair that a [`CountryCode`] is written as.
pub open spec fn spec_code(country: CountryCode) -> (char, char) {
    match country {
        CountryCode::DE => ('D', 'E'),
        CountryCode::FR => ('F', 'R'),
        CountryCode::GB => ('G', 'B'),
    }
}

impl CountryCode {
    /// The two characters of the code, in writing order.
    pub fn as_code(&self) -> (r: (char, char))
        ensures
            r == spec_code(*self),
    {
        match self {
            CountryCode::DE => ('D', 'E'),
            CountryCode::FR => ('F', 'R'),
            CountryCode::GB => ('G', 'B'),
        }
    }
}

/// The mandatory total length of a valid IBAN for the country written as
/// the character pair `(c0, c1)`, or `None` for an unknown pair.
pub open spec fn spec_country_length(c0: char, c1: char) -> Option<usize> {
    match (c0, c1) {
        ('A', 'L') => Some(28usize),
        ('A', 'D') => Some(24usize),
        ('A', 'T') => Some(20usize),
        ('A', 'Z') => Some(28usize),
        ('B', 'H') => Some(22usize),
        ('B', 'E') => Some(16usize),
        ('B', 'A') => Some(20usize),
        ('B', 'R') => Some(29usize),
        ('B', 'G') => Some(22usize),
        ('C', 'R') => Some(22usize),
        ('H', 'R') => Some(21usize),
        ('C', 'Y') => Some(28usize),
        ('C', 'Z') => Some(24usize),
        ('D', 'K') => Some(18usize),
        ('D', 'O') => Some(28usize),
        ('E', 'E') => Some(20usize),
        ('F', 'I') => Some(18usize),
        ('F', 'R') => Some(27usize),
        ('G', 'E') => Some(22usize),
        ('D', 'E') => Some(22usize),
        ('G', 'I') => Some(23usize),
        ('G', 'R') => Some(27usize),
        ('G', 'L') => Some(18usize),
        ('G', 'T') => Some(28usize),
        ('H', 'U') => Some(28usize),
        ('I', 'S') => Some(26usize),
        ('I', 'E') => Some(22usize),
        ('I', 'L') => Some(23usize),
        ('I', 'T') => Some(27usize),
        ('K', 'Z') => Some(20usize),
        ('K', 'W') => Some(30usize),
        ('L', 'V') => Some(21usize),
        ('L', 'B') => Some(28usize),
        ('L', 'I') => Some(21usize),
        ('L', 'T') => Some(20usize),
        ('L', 'U') => Some(20usize),
        ('M', 'K') => Some(19usize),
        ('M', 'T') => Some(31usize),
        ('M', 'R') => Some(27usize),
        ('M', 'U') => Some(30usize),
        ('M', 'C') => Some(27usize),
        ('M', 'D') => Some(24usize),
        ('M', 'E') => Some(22usize),
        ('N', 'L') => Some(18usize),
        ('N', 'O') => Some(15usize),
        ('P', 'K') => Some(24usize),
        ('P', 'S') => Some(29usize),
        ('P', 'L') => Some(28usize),
        ('P', 'T') => Some(25usize),
        ('R', 'O') => Some(24usize),
        ('S', 'M') => Some(27usize),
        ('S', 'A') => Some(24usize),
        ('R', 'S') => Some(22usize),
        ('S', 'K') => Some(24usize),
        ('S', 'I') => Some(19usize),
        ('E', 'S') => Some(24usize),
        ('S', 'E') => Some(24usize),
        ('C', 'H') => Some(21usize),
        ('T', 'N') => Some(24usize),
        ('T', 'R') => Some(26usize),
        ('A', 'E') => Some(23usize),
        ('G', 'B') => Some(22usize),
        ('V', 'G') => Some(24usize),
        _ => None,
    }
}

/// Looks up the mandatory IBAN length for the country written as
/// `(c0, c1)`.
pub fn country_length(c0: char, c1: char) -> (r: Option<usize>)
    ensures
        r == spec_country_length(c0, c1),
{
    match (c0, c1) {
        ('A', 'L') => Some(28),
        ('A', 'D') => Some(24),
        ('A', 'T') => Some(20),
        ('A', 'Z') => Some(28),
        ('B', 'H') => Some(22),
        ('B', 'E') => Some(16),
        ('B', 'A') => Some(20),
        ('B', 'R') => Some(29),
        ('B', 'G') => Some(22),
        ('C', 'R') => Some(22),
        ('H', 'R') => Some(21),
        ('C', 'Y') => Some(28),
        ('C', 'Z') => Some(24),
        ('D', 'K') => Some(18),
        ('D', 'O') => Some(28),
        ('E', 'E') => Some(20),
        ('F', 'I') => Some(18),
        ('F', 'R') => Some(27),
        ('G', 'E') => Some(22),
        ('D', 'E') => Some(22),
        ('G', 'I') => Some(23),
        ('G', 'R') => Some(27),
        ('G', 'L') => Some(18),
        ('G', 'T') => Some(28),
        ('H', 'U') => Some(28),
        ('I', 'S') => Some(26),
        ('I', 'E') => Some(22),
        ('I', 'L') => Some(23),
        ('I', 'T') => Some(27),
        ('K', 'Z') => Some(20),
        ('K', 'W') => Some(30),
        ('L', 'V') => Some(21),
        ('L', 'B') => Some(28),
        ('L', 'I') => Some(21),
        ('L', 'T') => Some(20),
        ('L', 'U') => Some(20),
        ('M', 'K') => Some(19),
        ('M', 'T') => Some(31),
        ('M', 'R') => Some(27),
        ('M', 'U') => Some(30),
        ('M', 'C') => Some(27),
        ('M', 'D') => Some(24),
        ('M', 'E') => Some(22),
        ('N', 'L') => Some(18),
        ('N', 'O') => Some(15),
        ('P', 'K') => Some(24),
        ('P', 'S') => Some(29),
        ('P', 'L') => Some(28),
        ('P', 'T') => Some(25),
        ('R', 'O') => Some(24),
        ('S', 'M') => Some(27),
        ('S', 'A') => Some(24),
        ('R', 'S') => Some(22),
        ('S', 'K') => Some(24),
        ('S', 'I') => Some(19),
        ('E', 'S') => Some(24),
        ('S', 'E') => Some(24),
        ('C', 'H') => Some(21),
        ('T', 'N') => Some(24),
        ('T', 'R') => Some(26),
        ('A', 'E') => Some(23),
        ('G', 'B') => Some(22),
        ('V', 'G') => Some(24),
        _ => None,
    }
}

} // verus!
