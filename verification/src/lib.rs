//! Representation, normalization and validation of International Bank
//! Account Numbers (IBAN).
//!
//! The central type is `IBAN`: a fixed 34-slot buffer of characters,
//! right-padded with NUL. It is built from loosely formatted text, from raw
//! bytes, or from a pre-validated array; it can be checked against the ISO
//! 7064 MOD 97-10 checksum and the per-country length table, and rendered
//! back as text or as a fixed 34-byte sequence.

pub mod checksum;
pub mod country;
pub mod currency;
pub mod error;
pub mod iban;
pub mod traits;

pub use checksum::spec_is_valid;
pub use country::country_length;
pub use country::spec_country_length;
pub use country::CountryCode;
pub use currency::Currency;
pub use error::Error;
pub use iban::IBAN;
pub use traits::ToBytes;
