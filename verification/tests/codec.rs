use rustpay::Error;
use rustpay::ToBytes;
use rustpay::IBAN;

#[test]
fn bytes_round_trip() {
    let iban = IBAN::try_from("GB82 WEST 1234 5698 7654 32").unwrap();
    let bytes = iban.as_bytes_unchecked();
    assert_eq!(bytes.len(), 34);

    let restored = IBAN::try_from_bytes(&bytes).unwrap();
    assert_eq!(restored, iban);
}

#[test]
fn bytes_too_long_rejected() {
    let bytes = vec![0x41; 35];
    assert_eq!(IBAN::try_from_bytes(&bytes), Err(Error::WrongIBANSize));
}

#[test]
fn bytes_non_ascii_rejected() {
    let bytes = vec![0x41, 0x80, 0x42];
    assert_eq!(IBAN::try_from_bytes(&bytes), Err(Error::NotAnIBAN));
}

#[test]
fn wire_round_trip() {
    let iban = IBAN::try_from("GB61BARC20031895173674").unwrap();
    let payload = iban.as_bytes().unwrap();
    assert_eq!(payload.len(), 34);

    let restored = IBAN::from_wire(&payload).unwrap();
    assert_eq!(restored, iban);
}

#[test]
fn wire_payload_is_exact() {
    let iban = IBAN::try_from("GB61BARC20031895173674").unwrap();
    let payload = iban.as_bytes().unwrap();

    let mut expected = b"GB61BARC20031895173674".to_vec();
    expected.resize(34, 0);
    assert_eq!(payload, expected);
}

#[test]
fn wire_wrong_length_rejected() {
    assert_eq!(IBAN::from_wire(&[0x41; 33]), Err(Error::WrongIBANSize));
    assert_eq!(IBAN::from_wire(&[0x41; 35]), Err(Error::WrongIBANSize));
    assert_eq!(IBAN::from_wire(&[]), Err(Error::WrongIBANSize));
}

#[test]
fn wire_loads_verbatim() {
    let mut payload = vec![0u8; 34];
    payload[0] = b'D';
    payload[1] = b'E';
    let iban = IBAN::from_wire(&payload).unwrap();
    assert_eq!(iban.get(0), Some('D'));
    assert_eq!(iban.get(1), Some('E'));
    assert_eq!(iban.get(2), Some('\0'));
}

#[test]
fn checked_bytes_reject_non_ascii_slot() {
    let mut slots = ['A'; 34];
    slots[5] = '\u{a7}';
    let iban = IBAN::from_array(slots);
    assert_eq!(iban.as_bytes(), Err(Error::NotAnIBAN));

    let garbage = iban.as_bytes_unchecked();
    assert_eq!(garbage.len(), 34);
    assert_eq!(garbage[5], 0xa7);
    assert_eq!(garbage[0], b'A');
}

#[test]
fn from_array_is_verbatim() {
    let mut slots = ['\0'; 34];
    slots[0] = 'G';
    slots[1] = 'B';
    let iban = IBAN::from_array(slots);
    assert_eq!(iban.get(0), Some('G'));
    assert_eq!(iban.get(1), Some('B'));
    assert_eq!(iban.len(), 2);
}
