//! The error kinds that the fallible operations of this crate report.

use vstd::prelude::*;

verus! {

/// What went wrong while building or converting an [`crate::IBAN`].
#[derive(Debug, Clone, Copy, PartialEq, Eq, Structural)]
pub enum Error {
    /// The input holds a character that can never occur in an IBAN.
    NotAnIBAN,
    /// The input is too long (or, for the wire form, not exactly 34 bytes).
    WrongIBANSize,
    /// The entity has no private (signing) key.
    NoPrivateKey,
    /// Error reserved for testing.
    DevError,
}

impl Error {
    /// A short human-readable description of the error.
    pub fn as_str(&self) -> (r: &'static str)
        ensures
            *self == Error::NotAnIBAN ==> r@ == "the provided string was unable to be converted into an iban"@,
            *self == Error::WrongIBANSize ==> r@ == "the provided string is too long or too short to be an iban"@,
            *self == Error::NoPrivateKey ==> r@ == "the entity did not contain a private (signing) key"@,
            *self == Error::DevError ==> r@ == "error for testing"@,
    {
        match self {
            Error::NotAnIBAN => "the provided string was unable to be converted into an iban",
            Error::WrongIBANSize => "the provided string is too long or too short to be an iban",
            Error::NoPrivateKey => "the entity did not contain a private (signing) key",
            Error::DevError => "error for testing",
        }
    }
}

} // verus!
