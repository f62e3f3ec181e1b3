use eml_codec::imf::datetime::{checked_date_time, date_time, DateTime, HOUR, MIN};

fn dt(year: i32, month: u32, day: u32, hour: u32, minute: u32, second: u32, offset: i32) -> DateTime {
    DateTime { year, month, day, hour, minute, second, offset }
}

fn date_parsed_printed(date: &[u8], printed: &[u8], parsed: DateTime) {
    assert_eq!(date_time(date, 0), Some((date.len(), parsed)));
    let reprinted = parsed.to_bytes();
    assert_eq!(String::from_utf8_lossy(&reprinted), String::from_utf8_lossy(printed));
}

#[test]
fn test_date_time_rfc_strict() {
    date_parsed_printed(
        b"Fri, 21 Nov 1997 09:55:06 -0600",
        b"Fri, 21 Nov 1997 09:55:06 -0600",
        dt(1997, 11, 21, 9, 55, 6, -6 * HOUR),
    );
}

#[test]
fn test_date_time_received() {
    date_parsed_printed(
        b"Sun, 18 Jun 2023 15:39:08 +0200 (CEST)",
        b"Sun, 18 Jun 2023 15:39:08 +0200",
        dt(2023, 6, 18, 15, 39, 8, 2 * HOUR),
    );
}

#[test]
fn test_date_time_rfc_ws() {
    date_parsed_printed(
        r#"Thu,
         13
           Feb
             1969
         23:32
                  -0330 (Newfoundland Time)"#
            .as_bytes(),
        b"Thu, 13 Feb 1969 23:32:00 -0330",
        dt(1969, 2, 13, 23, 32, 0, -(3 * HOUR + 30 * MIN)),
    );
}

#[test]
fn test_date_time_rfc_obs() {
    date_parsed_printed(
        b"21 Nov 97 09:55:06 GMT",
        b"Fri, 21 Nov 1997 09:55:06 +0000",
        dt(1997, 11, 21, 9, 55, 6, 0),
    );
}

#[test]
fn test_date_time_3digit_year() {
    date_parsed_printed(
        b"21 Nov 103 09:55:06 UT",
        b"Fri, 21 Nov 2003 09:55:06 +0000",
        dt(2003, 11, 21, 9, 55, 6, 0),
    );
}

#[test]
fn test_date_time_rfc_obs_ws() {
    date_parsed_printed(
        b"Fri, 21 Nov 1997 09(comment):   55  :  06 -0600",
        b"Fri, 21 Nov 1997 09:55:06 -0600",
        dt(1997, 11, 21, 9, 55, 6, -6 * HOUR),
    );
}

#[test]
fn test_date_time_2digit_year() {
    date_parsed_printed(
        b"21 Nov 23 09:55:06Z",
        b"Tue, 21 Nov 2023 09:55:06 +0000",
        dt(2023, 11, 21, 9, 55, 6, 0),
    );
}

#[test]
fn test_date_time_military_zone_east() {
    for (i, x) in ["a", "B", "c", "D", "e", "F", "g", "H", "i", "K", "l", "M"].iter().enumerate() {
        let s = format!("1 Jan 22 08:00:00 {}", x);
        assert_eq!(
            date_time(s.as_bytes(), 0),
            Some((s.len(), dt(2022, 1, 1, 8, 0, 0, (i as i32 + 1) * HOUR)))
        );
    }
}

#[test]
fn test_date_time_military_zone_west() {
    for (i, x) in ["N", "O", "P", "q", "r", "s", "T", "U", "V", "w", "x", "y"].iter().enumerate() {
        let s = format!("1 Jan 22 08:00:00 {}", x);
        assert_eq!(
            date_time(s.as_bytes(), 0),
            Some((s.len(), dt(2022, 1, 1, 8, 0, 0, -(i as i32 + 1) * HOUR)))
        );
    }
}

#[test]
fn test_date_time_gmt() {
    for s in [
        &b"21 Nov 2023 07:07:07 +0000"[..],
        b"21 Nov 2023 07:07:07 -0000",
        b"21 Nov 2023 07:07:07 Z",
        b"21 Nov 2023 07:07:07 GMT",
        b"21 Nov 2023 07:07:07 UT",
        b"21 Nov 2023 07:07:07 UTC",
    ] {
        date_parsed_printed(s, b"Tue, 21 Nov 2023 07:07:07 +0000", dt(2023, 11, 21, 7, 7, 7, 0));
    }
}

#[test]
fn test_date_time_usa() {
    date_parsed_printed(
        b"21 Nov 2023 4:4:4 CST",
        b"Tue, 21 Nov 2023 04:04:04 -0600",
        dt(2023, 11, 21, 4, 4, 4, -6 * HOUR),
    );
}

#[test]
fn test_date_time_oob_zone_hours() {
    date_parsed_printed(
        b"26 Aug 2316 09:06:21 -4508",
        b"Sat, 26 Aug 2316 09:06:21 -2108",
        dt(2316, 8, 26, 9, 6, 21, -(21 * HOUR + 8 * MIN)),
    );
}

#[test]
fn test_date_time_oob_zone_mins() {
    assert!(date_time(b"26 Aug 2316 09:06:21 -2160", 0).is_none());
}

#[test]
fn test_date_time_no_zone() {
    date_parsed_printed(
        b"21 Nov 2023 07:07:07 ",
        b"Tue, 21 Nov 2023 07:07:07 +0000",
        dt(2023, 11, 21, 7, 7, 7, 0),
    );
}

#[test]
fn test_date_time_unknown_zone() {
    date_parsed_printed(
        b" Mon, 20 Nov 1995 16:54:06 MET",
        b"Mon, 20 Nov 1995 16:54:06 +0000",
        dt(1995, 11, 20, 16, 54, 6, 0),
    );
}

// ---- own tests

#[test]
fn date_time_invalid_calendar_day() {
    // 30 February does not exist, in either syntax
    assert!(date_time(b"30 Feb 2023 10:00:00 +0000", 0).is_none());
}

#[test]
fn date_time_leap_day() {
    assert_eq!(
        date_time(b"29 Feb 2024 10:00:00 +0000", 0),
        Some((26, dt(2024, 2, 29, 10, 0, 0, 0)))
    );
    assert!(date_time(b"29 Feb 1900 10:00:00 +0000", 0).is_none());
}

#[test]
fn date_time_invalid_time() {
    assert!(date_time(b"1 Jan 2023 24:00:00 +0000", 0).is_none());
}

#[test]
fn date_time_placeholder_is_epoch() {
    let p = DateTime::placeholder();
    assert_eq!(p.to_bytes(), b"Thu, 1 Jan 1970 00:00:00 +0000".to_vec());
}

#[test]
fn date_time_checked_multiple_signs() {
    // two signs before a numeric zone: the parser has no answer
    assert!(checked_date_time(b"1 Jan 2023 10:00:00 +-0100", 0).is_none());
    assert_eq!(
        checked_date_time(b"1 Jan 2023 10:00:00 +0100", 0),
        Some(Some((25, dt(2023, 1, 1, 10, 0, 0, HOUR))))
    );
}
