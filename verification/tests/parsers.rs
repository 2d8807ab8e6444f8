use opus_stream::duration::{parse_duration, Duration, ErrorKind as DurationError};
use opus_stream::text::{parse_u64, split_str, IntParseError};
use opus_stream::time_id::{parse_time_id, ErrorKind as TimeIdError};
use opus_stream::DelimType;

#[test]
fn duration_standard_timestamp() {
    assert_eq!(
        parse_duration("00:01:31,950"),
        Ok(Duration { secs: 91, nanos: 950_000_000 })
    );
}

#[test]
fn duration_width_free() {
    assert_eq!(
        parse_duration("1:2:3,4"),
        Ok(Duration { secs: 3723, nanos: 4_000_000 })
    );
}

#[test]
fn duration_wrong_colon_count() {
    assert_eq!(
        parse_duration("01:31,950"),
        Err(DurationError::WrongNumberOfColons)
    );
    assert_eq!(
        parse_duration("0:0:0:0,0"),
        Err(DurationError::WrongNumberOfColons)
    );
}

#[test]
fn duration_wrong_comma_count() {
    assert_eq!(
        parse_duration("00:01:31.950"),
        Err(DurationError::WrongNumberOfCommas)
    );
    assert_eq!(
        parse_duration("00:01:31,9,50"),
        Err(DurationError::WrongNumberOfCommas)
    );
}

#[test]
fn duration_invalid_digit() {
    assert_eq!(
        parse_duration("aa:01:31,950"),
        Err(DurationError::ParseIntError(IntParseError::InvalidDigit))
    );
}

#[test]
fn duration_empty_field() {
    assert_eq!(
        parse_duration("00::31,950"),
        Err(DurationError::ParseIntError(IntParseError::Empty))
    );
}

#[test]
fn duration_field_overflow() {
    assert_eq!(
        parse_duration("18446744073709551616:00:00,0"),
        Err(DurationError::ParseIntError(IntParseError::Overflow))
    );
}

#[test]
fn duration_total_overflow() {
    assert_eq!(
        parse_duration("18446744073709551615:00:01,0"),
        Err(DurationError::ParseIntError(IntParseError::Overflow))
    );
}

#[test]
fn duration_millis_carry_into_seconds() {
    assert_eq!(
        parse_duration("0:0:0,1500"),
        Ok(Duration { secs: 1, nanos: 500_000_000 })
    );
}

#[test]
fn time_id_start_marker() {
    assert_eq!(parse_time_id("T12S"), Ok((DelimType::Start, 12)));
}

#[test]
fn time_id_end_marker() {
    assert_eq!(parse_time_id("T7E"), Ok((DelimType::End, 7)));
}

#[test]
fn time_id_bad_end_marker() {
    assert_eq!(parse_time_id("T1X"), Err(TimeIdError::ExpectedEndWithSOrE));
}

#[test]
fn time_id_too_short() {
    assert_eq!(parse_time_id("TS"), Err(TimeIdError::NotEnoughCharacters));
    assert_eq!(parse_time_id(""), Err(TimeIdError::NotEnoughCharacters));
}

#[test]
fn time_id_bad_start_marker() {
    assert_eq!(parse_time_id("Q12S"), Err(TimeIdError::ExpectedBeginWithT));
}

#[test]
fn time_id_bad_digits() {
    assert_eq!(
        parse_time_id("TxS"),
        Err(TimeIdError::ParseIntError(IntParseError::InvalidDigit))
    );
}

#[test]
fn parse_u64_basics() {
    assert_eq!(parse_u64("0"), Ok(0));
    assert_eq!(parse_u64("950"), Ok(950));
    assert_eq!(parse_u64("18446744073709551615"), Ok(u64::MAX));
    assert_eq!(parse_u64("18446744073709551616"), Err(IntParseError::Overflow));
    assert_eq!(parse_u64(""), Err(IntParseError::Empty));
    assert_eq!(parse_u64("12a"), Err(IntParseError::InvalidDigit));
    assert_eq!(parse_u64("-1"), Err(IntParseError::InvalidDigit));
}

#[test]
fn split_str_fields() {
    assert_eq!(split_str("00:01:31,950", ':'), vec!["00", "01", "31,950"]);
    assert_eq!(split_str("31,950", ','), vec!["31", "950"]);
    assert_eq!(split_str("", ':'), vec![""]);
    assert_eq!(split_str("::", ':'), vec!["", "", ""]);
    assert_eq!(split_str("s3.w12", '.'), vec!["s3", "w12"]);
}
