use pepe::date_from_str;
use pepe::DecodeError;

#[test]
fn parse_date() {
    let test_date = "/Date(1682481845657+0200)/";
    match date_from_str(test_date) {
        Ok(ts) => {
            let _ = ts.rendered;
        }
        Err(_) => println!("Could not parse: {}", test_date),
    };
}

#[test]
fn deserialize_invalid_timestamp() {
    let date = date_from_str("/Date(11111111682481845657+0200)/");
    assert!(&date.is_err());
    assert_eq!(
        date.err().unwrap().message(),
        "Could not parse timestamp: number too large to fit in target type"
    );
}

#[test]
fn deserialize_test() {
    let date = date_from_str("/Date(1682481845657+0200)/").unwrap();
    assert_eq!(date.rendered, "2023-04-26 06:04:05.657 CEST");
}

#[test]
fn deserialize_crap() {
    let date = date_from_str("Hestsnp");
    assert!(date.is_err())
}

#[test]
fn decode_keeps_millis() {
    let ts = date_from_str("/Date(1682481845657+0200)/").unwrap();
    assert_eq!(ts.millis, 1682481845657i64);
}

#[test]
fn decode_ignores_offset_sign() {
    let plus = date_from_str("/Date(1682481845657+0200)/").unwrap();
    let minus = date_from_str("/Date(1682481845657-0200)/").unwrap();
    assert_eq!(plus.millis, minus.millis);
    assert_eq!(plus.rendered, minus.rendered);
}

#[test]
fn decode_rejects_malformed_patterns() {
    assert_eq!(date_from_str("").err().unwrap(), DecodeError::PatternMismatch);
    assert_eq!(date_from_str("/Date(+0200)/").err().unwrap(), DecodeError::PatternMismatch);
    assert_eq!(date_from_str("/Date(123+020)/").err().unwrap(), DecodeError::PatternMismatch);
    assert_eq!(date_from_str("/Date(123*0200)/").err().unwrap(), DecodeError::PatternMismatch);
    assert_eq!(date_from_str("/Date(123+0200)!").err().unwrap(), DecodeError::PatternMismatch);
    assert_eq!(date_from_str("xDate(123+0200)/").err().unwrap(), DecodeError::PatternMismatch);
    assert_eq!(
        date_from_str("garbage").err().unwrap().message(),
        "Invalid date string"
    );
}

#[test]
fn decode_distinguishes_overflow_from_out_of_range() {
    // One past i64::MAX: the integer width itself overflows.
    assert_eq!(
        date_from_str("/Date(9223372036854775808+0000)/").err().unwrap(),
        DecodeError::NumericOverflow
    );
    // Exactly i64::MAX: fits the integer, but not the calendar.
    assert_eq!(
        date_from_str("/Date(9223372036854775807+0000)/").err().unwrap(),
        DecodeError::OutOfRange
    );
    assert_eq!(
        date_from_str("/Date(9223372036854775807+0000)/").err().unwrap().message(),
        "Invalid timestamp"
    );
}

#[test]
fn decode_accepts_epoch_start() {
    let ts = date_from_str("/Date(0+0100)/").unwrap();
    assert_eq!(ts.millis, 0);
    assert!(ts.rendered.contains("1970-01-01"));
}
