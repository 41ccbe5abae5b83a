use conduit::HttpDate;
use conduit::dates;
use conduit::formatting::format_http_date;
use conduit::parsing::{parse_http_date, parse_rfc1123, parse_rfc850, parse_asctime};

fn d(year: i32, month: u8, day: u8, hour: u8, minute: u8, second: u8) -> HttpDate {
    HttpDate { year, month, day, hour, minute, second }
}

#[test]
fn parses_rfc1123_epoch() {
    let parsed = parse_http_date(&b"Thu, 01 Jan 1970 0:00:00 GMT".to_vec()).unwrap();
    assert_eq!(parsed, d(1970, 1, 1, 0, 0, 0));
    assert_eq!(parsed.unix_timestamp(), 0);
}

#[test]
fn parses_rfc1123_padded_hour() {
    let parsed = parse_rfc1123(&b"Tue, 05 Mar 2024 01:02:03 GMT".to_vec()).unwrap();
    assert_eq!(parsed, d(2024, 3, 5, 1, 2, 3));
    assert_eq!(parsed.unix_timestamp(), 1709600523);
}

#[test]
fn rfc850_two_digit_year_is_taken_literally() {
    let parsed = parse_rfc850(&b"Thu, 01-01-70 0:00:00 GMT".to_vec()).unwrap();
    assert_eq!(parsed, d(70, 1, 1, 0, 0, 0));
}

#[test]
fn parses_asctime_with_numeric_month_and_tab() {
    let parsed = parse_asctime(&b"Tue 03\t05 7:06:05 2019".to_vec()).unwrap();
    assert_eq!(parsed, d(2019, 3, 5, 7, 6, 5));
}

#[test]
fn all_grammars_failing_is_one_failure() {
    assert!(parse_http_date(&b"".to_vec()).is_none());
    assert!(parse_http_date(&b"2015-03-05 12:00:00 +0000".to_vec()).is_none());
    assert!(parse_http_date(&b"Xyz, 01 Jan 1970 0:00:00 GMT".to_vec()).is_none());
}

#[test]
fn trailing_input_is_ignored() {
    let parsed = parse_http_date(&b"Thu, 01 Jan 1970 0:00:00 GMTtrailing".to_vec()).unwrap();
    assert_eq!(parsed, d(1970, 1, 1, 0, 0, 0));
}

#[test]
fn zero_padded_year_reads_back() {
    let parsed = parse_rfc1123(&b"Thu, 01 Jan 0070 0:00:00 GMT".to_vec()).unwrap();
    assert_eq!(parsed.year, 70);
}

#[test]
fn invalid_calendar_dates_are_refused() {
    assert!(parse_rfc1123(&b"Thu, 30 Feb 2019 0:00:00 GMT".to_vec()).is_none());
    assert!(parse_rfc1123(&b"Thu, 00 Jan 2019 0:00:00 GMT".to_vec()).is_none());
    assert!(parse_rfc1123(&b"Thu, 01 Jan 2019 24:00:00 GMT".to_vec()).is_none());
    assert!(parse_rfc850(&b"Thu, 01-13-70 0:00:00 GMT".to_vec()).is_none());
}

#[test]
fn leap_day_parses_in_leap_years_only() {
    assert!(parse_rfc1123(&b"Thu, 29 Feb 2024 0:00:00 GMT".to_vec()).is_some());
    assert!(parse_rfc1123(&b"Thu, 29 Feb 2023 0:00:00 GMT".to_vec()).is_none());
    assert!(parse_rfc1123(&b"Thu, 29 Feb 2000 0:00:00 GMT".to_vec()).is_some());
    assert!(parse_rfc1123(&b"Thu, 29 Feb 1900 0:00:00 GMT".to_vec()).is_none());
}

#[test]
fn formats_epoch_with_unpadded_hour() {
    let out = format_http_date(&d(1970, 1, 1, 0, 0, 0));
    assert_eq!(out.as_slice(), b"Thu, 01 Jan 1970 0:00:00 GMT");
}

#[test]
fn formats_with_computed_weekday() {
    let out = format_http_date(&d(2024, 3, 5, 1, 2, 3));
    assert_eq!(out.as_slice(), b"Tue, 05 Mar 2024 1:02:03 GMT");
}

#[test]
fn format_then_parse_is_identity() {
    let cases = [
        d(1970, 1, 1, 0, 0, 0),
        d(2024, 3, 5, 1, 2, 3),
        d(5, 12, 31, 23, 59, 59),
        d(476, 9, 4, 12, 0, 0),
        d(9999, 12, 31, 23, 59, 59),
    ];
    for c in cases.iter() {
        let out = format_http_date(c);
        assert_eq!(parse_http_date(&out), Some(*c));
    }
}

#[test]
fn timestamp_round_trips_through_the_calendar() {
    for ts in [0i64, 1, 86399, 86400, 1709600523, 253402300799] {
        let c = HttpDate::from_unix_timestamp(ts);
        assert_eq!(c.unix_timestamp(), ts);
    }
}

#[test]
fn timestamps_of_dates_before_the_epoch_are_negative() {
    let parsed = parse_rfc850(&b"Thu, 01-01-70 0:00:00 GMT".to_vec()).unwrap();
    assert!(parsed.unix_timestamp() < 0);
}

#[test]
fn time_crate_formats_parse_back_identically() {
    let now = time::OffsetDateTime::now_utc();
    let rfc1123ish = now.format("%a, %d %b %Y %T GMT");
    let parsed = parse_http_date(&rfc1123ish.as_bytes().to_vec()).unwrap();
    assert_eq!(parsed.unix_timestamp(), now.unix_timestamp());

    let rfc850ish = now.format("%a, %d-%m-%y %T GMT");
    let parsed850 = parse_http_date(&rfc850ish.as_bytes().to_vec()).unwrap();
    // The two-digit year is read literally, so only the clock fields agree.
    assert_eq!(parsed850.hour as u8, now.hour());
    assert_eq!(parsed850.minute as u8, now.minute());
    assert_eq!(parsed850.second as u8, now.second());
    assert_eq!(parsed850.year, (now.year().rem_euclid(100)) as i32);
}
