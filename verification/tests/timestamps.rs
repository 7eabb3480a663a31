use diaryx_storage_gdrive::timestamp::parse_rfc3339;

#[test]
fn timestamps_count_from_the_epoch() {
    assert_eq!(parse_rfc3339("1970-01-01T00:00:00Z"), Some(0));
    assert_eq!(parse_rfc3339("1970-01-01T00:00:01.500Z"), Some(1500));
    assert_eq!(parse_rfc3339("1970-01-02T00:00:00Z"), Some(86_400_000));
    assert_eq!(parse_rfc3339("2001-09-09T01:46:40Z"), Some(1_000_000_000_000));
    assert_eq!(parse_rfc3339("2024-02-29T12:34:56.789Z"), Some(1_709_210_096_789));
    assert_eq!(parse_rfc3339("2000-03-01T00:00:00Z"), Some(951_868_800_000));
    assert_eq!(parse_rfc3339("9999-12-31T23:59:59.999Z"), Some(253_402_300_799_999));
}

#[test]
fn timestamps_before_the_epoch() {
    assert_eq!(parse_rfc3339("1969-12-31T23:59:59.999Z"), Some(-1));
    assert_eq!(parse_rfc3339("1900-03-01T00:00:00Z"), Some(-2_203_891_200_000));
    assert_eq!(parse_rfc3339("0000-01-01T00:00:00Z"), Some(-62_167_219_200_000));
}

#[test]
fn offsets_are_taken_off() {
    assert_eq!(parse_rfc3339("1970-01-01T01:00:00+01:00"), Some(0));
    assert_eq!(parse_rfc3339("1969-12-31T16:30:00-07:30"), Some(0));
    assert_eq!(parse_rfc3339("1970-01-01T00:00:00-00:00"), Some(0));
    assert_eq!(
        parse_rfc3339("1996-12-19T16:39:57-08:00"),
        parse_rfc3339("1996-12-20T00:39:57Z")
    );
}

#[test]
fn fractions_are_cut_to_milliseconds() {
    assert_eq!(parse_rfc3339("1970-01-01T00:00:00.5Z"), Some(500));
    assert_eq!(parse_rfc3339("1970-01-01T00:00:00.05Z"), Some(50));
    assert_eq!(parse_rfc3339("1970-01-01T00:00:00.0019Z"), Some(1));
    assert_eq!(parse_rfc3339("1970-01-01T00:00:00.123456789+00:00"), Some(123));
}

#[test]
fn letters_of_either_case_and_leap_seconds() {
    assert_eq!(parse_rfc3339("1970-01-01t00:00:00z"), Some(0));
    assert_eq!(
        parse_rfc3339("1990-12-31T23:59:60Z"),
        parse_rfc3339("1991-01-01T00:00:00Z")
    );
}

#[test]
fn what_is_no_timestamp() {
    for text in [
        "",
        "1970-01-01",
        "1970-01-01T00:00:00",
        "1970-01-01 00:00:00Z",
        "1970-01-01T00:00Z",
        "1970-01-01T00:00:00.Z",
        "1970-01-01T00:00:00.5",
        "1970-01-01T00:00:00Z ",
        "1970-01-01T00:00:00+0100",
        "1970-01-01T00:00:00+24:00",
        "1970-01-01T00:00:00+01:60",
        "1970-01-01T24:00:00Z",
        "1970-01-01T00:60:00Z",
        "1970-01-01T00:00:61Z",
        "1970-00-01T00:00:00Z",
        "1970-13-01T00:00:00Z",
        "1970-01-00T00:00:00Z",
        "1970-04-31T00:00:00Z",
        "1970-02-29T00:00:00Z",
        "1900-02-29T00:00:00Z",
        "+970-01-01T00:00:00Z",
        "1970/01/01T00:00:00Z",
        "19700101T000000Z",
        "\u{661}970-01-01T00:00:00Z",
    ] {
        assert_eq!(parse_rfc3339(text), None, "{}", text);
    }
    assert_eq!(parse_rfc3339("2000-02-29T00:00:00Z"), Some(951_782_400_000));
}

#[test]
fn every_day_follows_the_day_before() {
    let mut last = parse_rfc3339("1895-12-31T00:00:00Z").unwrap();
    for year in 1896..2105 {
        for month in 1..13 {
            for day in 1..32 {
                let text = format!("{:04}-{:02}-{:02}T00:00:00Z", year, month, day);
                if let Some(now) = parse_rfc3339(text.as_str()) {
                    assert_eq!(now, last + 86_400_000, "{}", text);
                    last = now;
                }
            }
        }
    }
}
