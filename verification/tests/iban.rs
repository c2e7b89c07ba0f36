use rustpay::CountryCode;
use rustpay::Error;
use rustpay::ToBytes;
use rustpay::IBAN;

#[test]
fn zero_length() {
    let iban = IBAN::new();
    assert_eq!(iban.len(), 0);
}

#[test]
fn length() -> Result<(), Error> {
    let iban = IBAN::try_from("DE91500105177266427249")?;

    assert_eq!(iban.len(), 22);
    Ok(())
}

#[test]
fn correct_country() {
    let mut iban = IBAN::new();
    let country = CountryCode::DE;

    iban.set_country(country);

    let first_two_digits = (iban.get(0).unwrap(), iban.get(1).unwrap());
    assert_eq!(first_two_digits, country.as_code());
}

#[test]
fn create_from() {
    let ibans = [
        "NL66 RABO 9942 4087 54",
        "DE15500105174256634144",
        "AT140027100972005647",
    ];

    for ib in ibans {
        let iban = IBAN::try_from(ib);
        assert!(iban.is_ok())
    }
}

#[test]
fn create_from_fail() {
    let ibans = [
        "invalid_iban",
        "!\u{a7}!\u{a7}",
        "5123 1234 8373 1i28 asj23234234234234234dlk sa  832 912 9812",
    ];

    for ib in ibans {
        let iban = IBAN::try_from(ib);
        assert!(iban.is_err())
    }
}

#[test]
fn check_validity() {
    let test_ibans = vec![
        "GB82 WEST 1234 5698 7654 32",
        "DE89 3704 0044 0532 0130 00",
        "FR14 2004 1010 0505 0001 3M02 606",
        "GR16 0110 1250 0000 0001 2300 695",
        "DE51 2131 1231 5532 1234 42",
        "GB54 AAAA BBBB CCCC DDDD EE",
        "IB",
        "DD14 2004 1010 0505 0001 3M02 606",
        "DE22 8472 162",
    ];

    let mut results: Vec<bool> = vec![];

    for iban in test_ibans {
        results.push(IBAN::try_from(iban).unwrap().is_valid())
    }

    let expected_results = vec![true, true, true, true, false, false, false, false, false];

    assert_eq!(results, expected_results)
}

#[test]
fn as_bytes() -> Result<(), Error> {
    let iban = IBAN::new();
    assert_eq!(iban.as_bytes()?, &[0; 34]);

    let iban_filled = IBAN::try_from("GB61BARC20031895173674")?;
    let expected = vec![
        0x47, 0x42, 0x36, 0x31, 0x42, 0x41, 0x52, 0x43, 0x32, 0x30, 0x30, 0x33, 0x31, 0x38, 0x39,
        0x35, 0x31, 0x37, 0x33, 0x36, 0x37, 0x34, 0x00, 0x00, 0x00, 0x00, 0x00, 0x00, 0x00, 0x00,
        0x00, 0x00, 0x00, 0x00,
    ];
    let bytes = iban_filled.as_bytes()?;
    assert_eq!(bytes, expected);

    Ok(())
}
