use rizwold::date::Date;
use rizwold::date::UnixTimestamp;
use rizwold::date::add_days;
use rizwold::date::date_compact;
use rizwold::date::date_dashed;
use rizwold::date::date_from_epoch_days;
use rizwold::date::epoch_days;
use rizwold::date::i64_dec;
use rizwold::date::is_leap_year;
use rizwold::date::u64_dec;
use rizwold::date::weekday;
use rizwold::uid::uuid_text;

#[test]
fn epoch_day_zero_is_new_years_day_1970() {
    assert_eq!(date_from_epoch_days(0), Date { year: 1970, month: 1, day: 1 });
}

#[test]
fn epoch_days_cross_leap_years() {
    // 2000-02-29 exists: day 0 of 2000 is 10957 days past the epoch.
    assert_eq!(date_from_epoch_days(10957 + 59), Date { year: 2000, month: 2, day: 29 });
    assert_eq!(date_from_epoch_days(10957 + 60), Date { year: 2000, month: 3, day: 1 });
}

#[test]
fn epoch_day_counts_round_trip() {
    assert_eq!(epoch_days(&Date { year: 1970, month: 1, day: 1 }), 0);
    assert_eq!(epoch_days(&Date { year: 2000, month: 2, day: 29 }), 10957 + 59);
    assert_eq!(epoch_days(&Date { year: 2000, month: 3, day: 1 }), 10957 + 60);
}

#[test]
fn leap_year_rule() {
    assert!(is_leap_year(2000));
    assert!(is_leap_year(2024));
    assert!(!is_leap_year(1900));
    assert!(!is_leap_year(2023));
}

#[test]
fn add_days_rolls_over_months_and_years() {
    let d = Date { year: 2000, month: 2, day: 28 };
    assert_eq!(add_days(d, 1), Date { year: 2000, month: 2, day: 29 });
    assert_eq!(add_days(d, 2), Date { year: 2000, month: 3, day: 1 });
    let e = Date { year: 1999, month: 12, day: 31 };
    assert_eq!(add_days(e, 1), Date { year: 2000, month: 1, day: 1 });
}

#[test]
fn date_formats() {
    let d = Date { year: 1970, month: 8, day: 13 };
    assert_eq!(date_compact(&d), b"19700813".to_vec());
    assert_eq!(date_dashed(&d), b"1970-08-13".to_vec());
    let early = Date { year: 33, month: 1, day: 2 };
    assert_eq!(date_compact(&early), b"00330102".to_vec());
}

#[test]
fn timestamp_format() {
    assert_eq!(UnixTimestamp(0).format_utc(), b"19700101T000000Z".to_vec());
    // 2000-02-03 00:00:00 is 949536000 seconds past the epoch.
    assert_eq!(UnixTimestamp(949_536_000).format_utc(), b"20000203T000000Z".to_vec());
    assert_eq!(UnixTimestamp(949_536_000 + 3661).format_utc(), b"20000203T010101Z".to_vec());
}

#[test]
fn iso8601_format() {
    assert_eq!(UnixTimestamp(0).iso8601(), Some(b"1970-01-01T00:00:00Z".to_vec()));
    assert_eq!(
        UnixTimestamp(949_536_000 + 3661).iso8601(),
        Some(b"2000-02-03T01:01:01Z".to_vec())
    );
    // Past the renderable date range (year 262142) nothing is rendered,
    // even though the seconds still fit a signed 64-bit value.
    assert_eq!(UnixTimestamp(100_000_000_000_000).iso8601(), None);
    assert_eq!(UnixTimestamp(u64::MAX).iso8601(), None);
}

#[test]
fn error_report_joins_error_and_path() {
    assert_eq!(rizwold::io_error_to_string("permission denied", "/tmp/out.ics"), "permission denied: /tmp/out.ics");
}

#[test]
fn weekday_names() {
    // 1970-01-01 was a Thursday.
    assert_eq!(weekday(&Date { year: 1970, month: 1, day: 1 }), "torsdag");
    assert_eq!(weekday(&Date { year: 1970, month: 8, day: 13 }), "torsdag");
    assert_eq!(weekday(&Date { year: 2024, month: 1, day: 8 }), "mandag");
    assert_eq!(weekday(&Date { year: 2024, month: 1, day: 13 }), "lørdag");
}

#[test]
fn weekday_names_before_the_epoch() {
    assert_eq!(weekday(&Date { year: 1969, month: 12, day: 31 }), "onsdag");
    // 1900-01-01 was a Monday.
    assert_eq!(weekday(&Date { year: 1900, month: 1, day: 1 }), "mandag");
    // 0000-01-01 of the proleptic Gregorian calendar was a Saturday.
    assert_eq!(weekday(&Date { year: 0, month: 1, day: 1 }), "lørdag");
}

#[test]
fn decimal_formats() {
    assert_eq!(u64_dec(0), b"0".to_vec());
    assert_eq!(u64_dec(90210), b"90210".to_vec());
    assert_eq!(i64_dec(-42), b"-42".to_vec());
    assert_eq!(i64_dec(i64::MIN), b"-9223372036854775808".to_vec());
}

#[test]
fn uuid_formatting_is_grouped_uppercase() {
    assert_eq!(
        uuid_text(0),
        b"00000000-0000-0000-0000-000000000000".to_vec()
    );
    assert_eq!(
        uuid_text(0xa1a2a3a4_b1b2_c1c2_d1d2_d3d4d5d6d7d8_u128),
        b"A1A2A3A4-B1B2-C1C2-D1D2-D3D4D5D6D7D8".to_vec()
    );
}
