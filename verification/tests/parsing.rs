use rustpay::country_length;
use rustpay::Error;
use rustpay::IBAN;

#[test]
fn normalization_strips_spaces_and_uppercases() {
    let iban = IBAN::try_from("nl66 rabo 9942 4087 54").unwrap();
    assert_eq!(iban.to_string(), "NL66RABO9942408754");
    assert_eq!(iban.len(), 18);
}

#[test]
fn to_string_excludes_padding() {
    let iban = IBAN::try_from("DE91500105177266427249").unwrap();
    assert_eq!(iban.to_string(), "DE91500105177266427249");

    let empty = IBAN::new();
    assert_eq!(empty.to_string(), "");
}

#[test]
fn oversized_text_rejected() {
    let text = "A".repeat(35);
    assert_eq!(IBAN::try_from(text.as_str()), Err(Error::WrongIBANSize));

    let spaced = format!("  {}  ", "B".repeat(34));
    assert!(IBAN::try_from(spaced.as_str()).is_ok());
}

#[test]
fn size_error_precedes_character_error() {
    let text = "!".repeat(35);
    assert_eq!(IBAN::try_from(text.as_str()), Err(Error::WrongIBANSize));
}

#[test]
fn bad_character_rejected() {
    assert_eq!(IBAN::try_from("DE91_5001"), Err(Error::NotAnIBAN));
    assert_eq!(IBAN::try_from("DE-91"), Err(Error::NotAnIBAN));
}

#[test]
fn owned_string_parses_like_text() {
    let owned = String::from("DE91 5001 0517 7266 4272 49");
    let from_owned = IBAN::try_from_string(owned).unwrap();
    let from_text = IBAN::try_from("DE91500105177266427249").unwrap();
    assert_eq!(from_owned, from_text);
}

#[test]
fn get_is_bounds_checked() {
    let iban = IBAN::new();
    assert_eq!(iban.get(0), Some('\0'));
    assert_eq!(iban.get(33), Some('\0'));
    assert_eq!(iban.get(34), None);
}

#[test]
fn error_descriptions() {
    assert_eq!(
        Error::NotAnIBAN.as_str(),
        "the provided string was unable to be converted into an iban"
    );
    assert_eq!(
        Error::WrongIBANSize.as_str(),
        "the provided string is too long or too short to be an iban"
    );
    assert_eq!(
        Error::NoPrivateKey.as_str(),
        "the entity did not contain a private (signing) key"
    );
    assert_eq!(Error::DevError.as_str(), "error for testing");
}

#[test]
fn country_length_table_entries() {
    assert_eq!(country_length('A', 'L'), Some(28));
    assert_eq!(country_length('A', 'D'), Some(24));
    assert_eq!(country_length('A', 'T'), Some(20));
    assert_eq!(country_length('D', 'E'), Some(22));
    assert_eq!(country_length('G', 'B'), Some(22));
    assert_eq!(country_length('F', 'R'), Some(27));
    assert_eq!(country_length('N', 'O'), Some(15));
    assert_eq!(country_length('M', 'T'), Some(31));
    assert_eq!(country_length('V', 'G'), Some(24));
    assert_eq!(country_length('D', 'D'), None);
    assert_eq!(country_length('d', 'e'), None);
}

#[test]
fn validity_needs_exact_country_length() {
    let one_short = IBAN::try_from("DE8937040044053201300").unwrap();
    assert!(!one_short.is_valid());
}
