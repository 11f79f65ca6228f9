use range_resume::content_range::{ContentRange, RangeError};
use range_resume::request::{classify_status, range_header_value, StatusClass};

fn cr(start: u64, end: u64, total: u64) -> ContentRange {
    ContentRange { start, end, total }
}

#[test]
fn parses_full_range() {
    assert_eq!(ContentRange::parse(b"bytes 0-99/100"), Ok(cr(0, 99, 100)));
    assert_eq!(ContentRange::parse(b"bytes 1234-5677/5678"), Ok(cr(1234, 5677, 5678)));
}

#[test]
fn parses_from_text() {
    assert_eq!(ContentRange::from_str("bytes 7-9/10"), Ok(cr(7, 9, 10)));
}

#[test]
fn accepts_plus_sign_and_largest_numbers() {
    assert_eq!(ContentRange::parse(b"bytes +5-9/+10"), Ok(cr(5, 9, 10)));
    assert_eq!(
        ContentRange::parse(b"bytes 0-18446744073709551614/18446744073709551615"),
        Ok(cr(0, u64::MAX - 1, u64::MAX))
    );
}

#[test]
fn refuses_missing_prefix() {
    assert_eq!(ContentRange::parse(b"byte 0-1/2"), Err(RangeError::MissingPrefix));
    assert_eq!(ContentRange::parse(b"bytes"), Err(RangeError::MissingPrefix));
    assert_eq!(ContentRange::parse(b""), Err(RangeError::MissingPrefix));
    assert_eq!(ContentRange::parse(b"Bytes 0-1/2"), Err(RangeError::MissingPrefix));
}

#[test]
fn refuses_bad_fields() {
    assert_eq!(ContentRange::parse(b"bytes 0-1"), Err(RangeError::BadFields));
    assert_eq!(ContentRange::parse(b"bytes 0/1-2"), Err(RangeError::BadFields));
    assert_eq!(ContentRange::parse(b"bytes a-1/2"), Err(RangeError::BadFields));
    assert_eq!(ContentRange::parse(b"bytes -1/2"), Err(RangeError::BadFields));
    assert_eq!(ContentRange::parse(b"bytes 0-1/2/3"), Err(RangeError::BadFields));
    assert_eq!(ContentRange::parse(b"bytes 0-1/"), Err(RangeError::BadFields));
    assert_eq!(ContentRange::parse(b"bytes +-1/2"), Err(RangeError::BadFields));
    assert_eq!(ContentRange::parse(b"bytes 0-1/*"), Err(RangeError::BadFields));
    assert_eq!(ContentRange::parse(b"bytes  0-1/2"), Err(RangeError::BadFields));
}

#[test]
fn refuses_numbers_that_overflow() {
    assert_eq!(
        ContentRange::parse(b"bytes 0-1/18446744073709551616"),
        Err(RangeError::BadFields)
    );
}

#[test]
fn refuses_unordered_range() {
    assert_eq!(ContentRange::parse(b"bytes 5-4/10"), Err(RangeError::Unordered));
    assert_eq!(ContentRange::parse(b"bytes 0-10/10"), Err(RangeError::Unordered));
    assert_eq!(ContentRange::parse(b"bytes 0-0/0"), Err(RangeError::Unordered));
}

#[test]
fn writes_range_text_that_reads_back() {
    let r = cr(12, 340, 341);
    assert_eq!(r.to_bytes(), b"bytes 12-340/341".to_vec());
    assert_eq!(ContentRange::parse(&r.to_bytes()), Ok(r));
    let big = cr(0, u64::MAX - 1, u64::MAX);
    assert_eq!(ContentRange::parse(&big.to_bytes()), Ok(big));
}

#[test]
fn range_header_names_the_offset() {
    assert_eq!(range_header_value(0), b"bytes=0-".to_vec());
    assert_eq!(range_header_value(7), b"bytes=7-".to_vec());
    assert_eq!(range_header_value(1234567), b"bytes=1234567-".to_vec());
    assert_eq!(range_header_value(u64::MAX), b"bytes=18446744073709551615-".to_vec());
}

#[test]
fn classifies_statuses() {
    assert_eq!(classify_status(206), StatusClass::Partial);
    assert_eq!(classify_status(416), StatusClass::AlreadyComplete);
    assert_eq!(classify_status(200), StatusClass::Rejected);
    assert_eq!(classify_status(404), StatusClass::Rejected);
    assert_eq!(classify_status(500), StatusClass::Rejected);
}
