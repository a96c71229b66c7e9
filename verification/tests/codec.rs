use gtakeout::errors::ProcessError;
use gtakeout::timestamp::{
    decode_epoch, decode_timestamp_str, format_datetime, parse_epoch_seconds, CanonicalTimestamp,
};

#[test]
fn decode_known_epoch_value() {
    // 1511480066 is 2017-11-23 23:34:26 UTC.
    let t = decode_epoch(1511480066).unwrap();
    assert_eq!(t.year, 2017);
    assert_eq!(t.month, 11);
    assert_eq!(t.day, 23);
    let s = decode_timestamp_str("1511480066").unwrap();
    assert!(s.starts_with("2017:11:23"));
    assert_eq!(s.as_str(), "2017:11:23 23:34:26");
}

#[test]
fn decode_epoch_edges() {
    let t = decode_epoch(0).unwrap();
    assert_eq!(format_datetime(&t).as_str(), "1970:01:01 00:00:00");
    let t = decode_epoch(-1).unwrap();
    assert_eq!(format_datetime(&t).as_str(), "1969:12:31 23:59:59");
    let t = decode_epoch(253402300799).unwrap();
    assert_eq!(format_datetime(&t).as_str(), "9999:12:31 23:59:59");
    let t = decode_epoch(-62167219200).unwrap();
    assert_eq!(format_datetime(&t).as_str(), "0000:01:01 00:00:00");
    // A leap day.
    let t = decode_epoch(1582934400).unwrap();
    assert_eq!(format_datetime(&t).as_str(), "2020:02:29 00:00:00");
    // The century year 1900 was not a leap year: day after 1900-02-28.
    let t = decode_epoch(-2203891200).unwrap();
    assert_eq!(format_datetime(&t).as_str(), "1900:03:01 00:00:00");
}

#[test]
fn decode_epoch_out_of_range() {
    assert_eq!(decode_epoch(253402300800), Err(ProcessError::InvalidTimestamp));
    assert_eq!(decode_epoch(-62167219201), Err(ProcessError::InvalidTimestamp));
    assert_eq!(decode_epoch(i64::MAX), Err(ProcessError::InvalidTimestamp));
    assert_eq!(decode_epoch(i64::MIN), Err(ProcessError::InvalidTimestamp));
}

#[test]
fn parse_epoch_seconds_cases() {
    assert_eq!(parse_epoch_seconds("0"), Ok(0));
    assert_eq!(parse_epoch_seconds("1511480066"), Ok(1511480066));
    assert_eq!(parse_epoch_seconds("-1"), Ok(-1));
    assert_eq!(parse_epoch_seconds("+42"), Ok(42));
    assert_eq!(parse_epoch_seconds("000001"), Ok(1));
    assert_eq!(parse_epoch_seconds("9223372036854775807"), Ok(i64::MAX));
    assert_eq!(parse_epoch_seconds("-9223372036854775808"), Ok(i64::MIN));
    assert_eq!(
        parse_epoch_seconds("9223372036854775808"),
        Err(ProcessError::InvalidTimestamp)
    );
    assert_eq!(
        parse_epoch_seconds("-9223372036854775809"),
        Err(ProcessError::InvalidTimestamp)
    );
    assert_eq!(
        parse_epoch_seconds("99999999999999999999999"),
        Err(ProcessError::InvalidTimestamp)
    );
    assert_eq!(parse_epoch_seconds(""), Err(ProcessError::InvalidTimestamp));
    assert_eq!(parse_epoch_seconds("-"), Err(ProcessError::InvalidTimestamp));
    assert_eq!(parse_epoch_seconds("+"), Err(ProcessError::InvalidTimestamp));
    assert_eq!(parse_epoch_seconds("12a"), Err(ProcessError::InvalidTimestamp));
    assert_eq!(parse_epoch_seconds(" 1"), Err(ProcessError::InvalidTimestamp));
    assert_eq!(parse_epoch_seconds("1.5"), Err(ProcessError::InvalidTimestamp));
}

#[test]
fn format_is_zero_padded() {
    let t = CanonicalTimestamp { year: 7, month: 1, day: 2, hour: 3, minute: 4, second: 5 };
    assert_eq!(format_datetime(&t).as_str(), "0007:01:02 03:04:05");
}

#[test]
fn decode_timestamp_str_rejects_unrepresentable() {
    assert_eq!(
        decode_timestamp_str("253402300800"),
        Err(ProcessError::InvalidTimestamp)
    );
    assert_eq!(decode_timestamp_str("abc"), Err(ProcessError::InvalidTimestamp));
}
