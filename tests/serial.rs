use webpki_core::cert::certificate_serial_number;
use webpki_core::Error;

fn integer(contents: &[u8]) -> Vec<u8> {
    let mut v = vec![0x02, contents.len() as u8];
    v.extend_from_slice(contents);
    v
}

#[test]
fn positive_serial_is_accepted() {
    assert_eq!(certificate_serial_number(&integer(&[0x01, 0x02])), Ok((2, 2)));
    assert_eq!(certificate_serial_number(&integer(&[0x00, 0x80])), Ok((2, 2)));
    assert_eq!(certificate_serial_number(&integer(&[0x00])), Ok((2, 1)));
}

#[test]
fn negative_serial_is_rejected() {
    assert_eq!(
        certificate_serial_number(&integer(&[0x80, 0x01])),
        Err(Error::InvalidSerialNumber)
    );
}

#[test]
fn non_minimal_serial_is_rejected() {
    assert_eq!(
        certificate_serial_number(&integer(&[0x00, 0x01])),
        Err(Error::InvalidSerialNumber)
    );
    assert_eq!(certificate_serial_number(&integer(&[])), Err(Error::InvalidSerialNumber));
}

#[test]
fn serial_length_limit() {
    let twenty = [0x7f; 20];
    assert_eq!(certificate_serial_number(&integer(&twenty)), Ok((2, 20)));
    let mut padded = vec![0x00];
    padded.extend_from_slice(&[0xff; 20]);
    assert_eq!(certificate_serial_number(&integer(&padded)), Ok((2, 21)));
    let twenty_one = [0x7f; 21];
    assert_eq!(
        certificate_serial_number(&integer(&twenty_one)),
        Err(Error::InvalidSerialNumber)
    );
}

#[test]
fn serial_framing_errors_are_bad_der() {
    assert_eq!(certificate_serial_number(&[0x04, 0x01, 0x01]), Err(Error::BadDer));
    assert_eq!(certificate_serial_number(&[0x02, 0x05, 0x01]), Err(Error::BadDer));
}
