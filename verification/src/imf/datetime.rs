//! Date and time (RFC 5322 section 3.3), leniently parsed.
//!
//! A `DateTime` holds the local calendar date, the local time of day and the
//! zone offset as plain numbers. Which dates, times and offsets are valid,
//! and the day of the week, come from `chrono`.
use vstd::prelude::*;
use chrono::Datelike;
use vstd::slice::slice_subrange;
use crate::text::ascii::{self, lower, lower_byte, to_lower, to_ascii_lowercase};
use crate::text::digits::{
    all_digits, digits_value, spec_u32, u32_at, decimal, u64_decimal, lemma_decimal_digits,
    lemma_decimal_value, lemma_number_at, is_digit, pow10,
};
use crate::print::{Formatter, Print, graphic, lemma_graphic_append, lemma_decimal_graphic, write_graphic, line_start, unmarked};
use crate::text::run::{ByteClass, run_end, lemma_run_end, lemma_run_end_exact, take_run, in_class};
use crate::text::tag::{spec_byte, byte};
use crate::text::whitespace::{
    spec_fws, fws, spec_opt_fws, opt_fws, spec_opt_cfws, opt_cfws, lemma_no_cfws, lemma_fws_one_space,
};

verus! {

// ---------------------------------------------------------------- model

/// Seconds in a minute and in an hour.
pub const MIN: i32 = 60;
pub const HOUR: i32 = 3600;

/// The first and last years that `chrono` represents.
pub const MIN_YEAR: i32 = -262143;
pub const MAX_YEAR: i32 = 262142;

/// A date and time with a fixed zone offset: the local date, the local time
/// of day, and the offset (local minus UTC) in seconds.
#[derive(Debug, Clone, Copy, PartialEq, Eq, Structural)]
pub struct DateTime {
    pub year: i32,
    pub month: u32,
    pub day: u32,
    pub hour: u32,
    pub minute: u32,
    pub second: u32,
    pub offset: i32,
}

/// Leap years of the proleptic Gregorian calendar.
pub open spec fn is_leap_year(y: int) -> bool {
    y % 4 == 0 && (y % 100 != 0 || y % 400 == 0)
}

pub open spec fn days_in_month(y: int, m: int) -> int {
    if m == 2 {
        if is_leap_year(y) {
            29
        } else {
            28
        }
    } else if m == 4 || m == 6 || m == 9 || m == 11 {
        30
    } else {
        31
    }
}

/// A calendar date that `chrono` represents.
pub open spec fn valid_date(y: int, m: int, d: int) -> bool {
    MIN_YEAR <= y <= MAX_YEAR && 1 <= m <= 12 && 1 <= d <= days_in_month(y, m)
}

/// A time of day without leap second.
pub open spec fn valid_time(h: int, mi: int, s: int) -> bool {
    0 <= h < 24 && 0 <= mi < 60 && 0 <= s < 60
}

/// A zone offset that `chrono` represents: less than a day either way.
pub open spec fn valid_offset(o: int) -> bool {
    -86400 < o < 86400
}

/// The instant in UTC is representable: it does not fall before the first
/// or after the last day that `chrono` represents.
pub open spec fn utc_in_range(y: int, m: int, d: int, h: int, mi: int, s: int, o: int) -> bool {
    let t = h * 3600 + mi * 60 + s - o;
    &&& !(y == MIN_YEAR && m == 1 && d == 1 && t < 0)
    &&& !(y == MAX_YEAR && m == 12 && d == 31 && t >= 86400)
}

impl DateTime {
    /// A well-formed date and time: every component valid and the instant
    /// representable.
    pub open spec fn wf(self) -> bool {
        &&& valid_date(self.year as int, self.month as int, self.day as int)
        &&& valid_time(self.hour as int, self.minute as int, self.second as int)
        &&& valid_offset(self.offset as int)
        &&& utc_in_range(
            self.year as int,
            self.month as int,
            self.day as int,
            self.hour as int,
            self.minute as int,
            self.second as int,
            self.offset as int,
        )
    }

    /// Placeholder for a missing or invalid date: the Unix epoch,
    /// 1970-01-01 00:00:00 +0000.
    pub fn placeholder() -> (r: DateTime)
        ensures
            r == (DateTime {
                year: 1970,
                month: 1,
                day: 1,
                hour: 0,
                minute: 0,
                second: 0,
                offset: 0,
            }),
            r.wf(),
    {
        DateTime { year: 1970, month: 1, day: 1, hour: 0, minute: 0, second: 0, offset: 0 }
    }
}

// ---------------------------------------------------------------- chrono

/// `chrono::NaiveDate::from_ymd_opt(y, m, d).is_some()`: the calendar date
/// exists and its year lies in the range that `chrono` represents.
#[verifier::external_body]
fn chrono_date_exists(y: i32, m: u32, d: u32) -> (r: bool)
    ensures
        r == valid_date(y as int, m as int, d as int),
{
    chrono::NaiveDate::from_ymd_opt(y, m, d).is_some()
}

/// `chrono::NaiveTime::from_hms_opt(h, mi, s).is_some()`: hour, minute and
/// second are in range.
#[verifier::external_body]
fn chrono_time_exists(h: u32, mi: u32, s: u32) -> (r: bool)
    ensures
        r == valid_time(h as int, mi as int, s as int),
{
    chrono::NaiveTime::from_hms_opt(h, mi, s).is_some()
}

/// `chrono::FixedOffset::east_opt(secs)`, as its offset in seconds (local
/// minus UTC): defined for less than a day either way.
#[verifier::external_body]
fn chrono_east(secs: i32) -> (r: Option<i32>)
    ensures
        r == (if valid_offset(secs as int) {
            Some(secs)
        } else {
            None::<i32>
        }),
{
    match chrono::FixedOffset::east_opt(secs) {
        Some(o) => Some(o.local_minus_utc()),
        None => None,
    }
}

/// `chrono::FixedOffset::west_opt(secs)`, as its offset in seconds (local
/// minus UTC, so `-secs`): defined for less than a day either way.
#[verifier::external_body]
fn chrono_west(secs: i32) -> (r: Option<i32>)
    requires
        secs > i32::MIN,
    ensures
        r == (if valid_offset(secs as int) {
            Some((-secs) as i32)
        } else {
            None::<i32>
        }),
{
    match chrono::FixedOffset::west_opt(secs) {
        Some(o) => Some(o.local_minus_utc()),
        None => None,
    }
}

/// `date.and_time(time).and_local_timezone(offset).earliest().is_some()` on
/// the `chrono` values of the arguments: the local date and time, shifted to
/// UTC, stays in the range of dates that `chrono` represents.
#[verifier::external_body]
fn chrono_local_in_range(y: i32, m: u32, d: u32, h: u32, mi: u32, s: u32, o: i32) -> (r: bool)
    requires
        valid_date(y as int, m as int, d as int),
        valid_time(h as int, mi as int, s as int),
        valid_offset(o as int),
    ensures
        r == utc_in_range(y as int, m as int, d as int, h as int, mi as int, s as int, o as int),
{
    let date = chrono::NaiveDate::from_ymd_opt(y, m, d).unwrap();
    let time = chrono::NaiveTime::from_hms_opt(h, mi, s).unwrap();
    let tz = chrono::FixedOffset::east_opt(o).unwrap();
    date.and_time(time).and_local_timezone(tz).earliest().is_some()
}

/// The number of days from 1970-01-01 to a date of the proleptic Gregorian
/// calendar (negative before it).
pub open spec fn days_from_civil(y: int, m: int, d: int) -> int {
    let y1 = if m <= 2 { y - 1 } else { y };
    let era = y1 / 400;
    let yoe = y1 - era * 400;
    let doy = (153 * ((m + 9) % 12) + 2) / 5 + d - 1;
    let doe = yoe * 365 + yoe / 4 - yoe / 100 + doy;
    era * 146097 + doe - 719468
}

/// The day of the week of a date, counted from Monday (0) to Sunday (6);
/// 1970-01-01 was a Thursday.
pub open spec fn weekday_number(y: i32, m: u32, d: u32) -> u32 {
    ((days_from_civil(y as int, m as int, d as int) + 3) % 7) as u32
}

/// `chrono::NaiveDate::weekday().num_days_from_monday()` of the date: the
/// day of the week in the proleptic Gregorian calendar.
#[verifier::external_body]
fn chrono_weekday_of(y: i32, m: u32, d: u32) -> (r: u32)
    requires
        valid_date(y as int, m as int, d as int),
    ensures
        r == weekday_number(y, m, d),
{
    chrono::NaiveDate::from_ymd_opt(y, m, d).unwrap().weekday().num_days_from_monday()
}

/// What `encoding_rs::UTF_8.decode_without_bom_handling` gives back for a
/// byte string, as UTF-8 bytes.
pub uninterp spec fn utf8_decoded(b: Seq<u8>) -> Seq<u8>;

pub open spec fn all_ascii(b: Seq<u8>) -> bool {
    forall|k: int| 0 <= k < b.len() ==> #[trigger] b[k] < 0x80
}

/// `encoding_rs::UTF_8.decode_without_bom_handling(b)`, as bytes. UTF-8 is a
/// superset of ASCII: ASCII input comes back unchanged.
#[verifier::external_body]
fn decode_utf8(b: &[u8]) -> (r: Vec<u8>)
    ensures
        r@ == utf8_decoded(b@),
        all_ascii(b@) ==> r@ == b@,
{
    encoding_rs::UTF_8.decode_without_bom_handling(b).0.as_bytes().to_vec()
}

// ---------------------------------------------------------------- names

/// A lower-cased three-letter day name.
pub open spec fn is_day_name(a: u8, b: u8, c: u8) -> bool {
    ||| (a, b, c) == (0x6du8, 0x6fu8, 0x6eu8)
    ||| (a, b, c) == (0x74u8, 0x75u8, 0x65u8)
    ||| (a, b, c) == (0x77u8, 0x65u8, 0x64u8)
    ||| (a, b, c) == (0x74u8, 0x68u8, 0x75u8)
    ||| (a, b, c) == (0x66u8, 0x72u8, 0x69u8)
    ||| (a, b, c) == (0x73u8, 0x61u8, 0x74u8)
    ||| (a, b, c) == (0x73u8, 0x75u8, 0x6eu8)
}

/// The number of a lower-cased three-letter month name, 0 for none.
pub open spec fn month_number(a: u8, b: u8, c: u8) -> u32 {
    if (a, b, c) == (0x6au8, 0x61u8, 0x6eu8) {
        1
    } else if (a, b, c) == (0x66u8, 0x65u8, 0x62u8) {
        2
    } else if (a, b, c) == (0x6du8, 0x61u8, 0x72u8) {
        3
    } else if (a, b, c) == (0x61u8, 0x70u8, 0x72u8) {
        4
    } else if (a, b, c) == (0x6du8, 0x61u8, 0x79u8) {
        5
    } else if (a, b, c) == (0x6au8, 0x75u8, 0x6eu8) {
        6
    } else if (a, b, c) == (0x6au8, 0x75u8, 0x6cu8) {
        7
    } else if (a, b, c) == (0x61u8, 0x75u8, 0x67u8) {
        8
    } else if (a, b, c) == (0x73u8, 0x65u8, 0x70u8) {
        9
    } else if (a, b, c) == (0x6fu8, 0x63u8, 0x74u8) {
        10
    } else if (a, b, c) == (0x6eu8, 0x6fu8, 0x76u8) {
        11
    } else if (a, b, c) == (0x64u8, 0x65u8, 0x63u8) {
        12
    } else {
        0
    }
}

/// `day-name = "Mon" / "Tue" / "Wed" / "Thu" / "Fri" / "Sat" / "Sun"`,
/// ignoring case.
pub open spec fn spec_day_name(s: Seq<u8>, i: int) -> Option<int> {
    if 0 <= i && i + 3 <= s.len() && is_day_name(
        lower_byte(s[i]),
        lower_byte(s[i + 1]),
        lower_byte(s[i + 2]),
    ) {
        Some(i + 3)
    } else {
        None
    }
}

/// `month = "Jan" / ... / "Dec"`, ignoring case: its end and number.
pub open spec fn spec_month(s: Seq<u8>, i: int) -> Option<(int, u32)> {
    if 0 <= i && i + 3 <= s.len() && month_number(
        lower_byte(s[i]),
        lower_byte(s[i + 1]),
        lower_byte(s[i + 2]),
    ) != 0 {
        Some((i + 3, month_number(lower_byte(s[i]), lower_byte(s[i + 1]), lower_byte(s[i + 2]))))
    } else {
        None
    }
}

fn day_name(s: &[u8], i: usize) -> (r: Option<usize>)
    ensures
        crate::text::whitespace::opt_int(r) == spec_day_name(s@, i as int),
{
    if i > s.len() || 3 > s.len() - i {
        return None;
    }
    let a = to_lower(s[i]);
    let b = to_lower(s[i + 1]);
    let c = to_lower(s[i + 2]);
    if (a == 0x6d && b == 0x6f && c == 0x6e) || (a == 0x74 && b == 0x75 && c == 0x65) || (a == 0x77
        && b == 0x65 && c == 0x64) || (a == 0x74 && b == 0x68 && c == 0x75) || (a == 0x66 && b
        == 0x72 && c == 0x69) || (a == 0x73 && b == 0x61 && c == 0x74) || (a == 0x73 && b == 0x75
        && c == 0x6e) {
        Some(i + 3)
    } else {
        None
    }
}

fn month(s: &[u8], i: usize) -> (r: Option<(usize, u32)>)
    ensures
        match r {
            Some((j, m)) => spec_month(s@, i as int) == Some((j as int, m)),
            None => spec_month(s@, i as int) is None,
        },
{
    if i > s.len() || 3 > s.len() - i {
        return None;
    }
    let a = to_lower(s[i]);
    let b = to_lower(s[i + 1]);
    let c = to_lower(s[i + 2]);
    let m: u32 = if a == 0x6a && b == 0x61 && c == 0x6e {
        1
    } else if a == 0x66 && b == 0x65 && c == 0x62 {
        2
    } else if a == 0x6d && b == 0x61 && c == 0x72 {
        3
    } else if a == 0x61 && b == 0x70 && c == 0x72 {
        4
    } else if a == 0x6d && b == 0x61 && c == 0x79 {
        5
    } else if a == 0x6a && b == 0x75 && c == 0x6e {
        6
    } else if a == 0x6a && b == 0x75 && c == 0x6c {
        7
    } else if a == 0x61 && b == 0x75 && c == 0x67 {
        8
    } else if a == 0x73 && b == 0x65 && c == 0x70 {
        9
    } else if a == 0x6f && b == 0x63 && c == 0x74 {
        10
    } else if a == 0x6e && b == 0x6f && c == 0x76 {
        11
    } else if a == 0x64 && b == 0x65 && c == 0x63 {
        12
    } else {
        0
    };
    if m == 0 {
        None
    } else {
        Some((i + 3, m))
    }
}

// ---------------------------------------------------------------- date

/// The optional day of the week and its comma:
/// ```abnf
///    [ day-of-week "," ]
///    day-of-week     =   ([FWS] day-name) / obs-day-of-week
///    obs-day-of-week =   [CFWS] day-name [CFWS]
/// ```
/// Where it ends (`i` when absent).
pub open spec fn spec_day_of_week(s: Seq<u8>, i: int) -> int {
    let d = match spec_day_name(s, spec_opt_fws(s, i)) {
        Some(j) => Some(j),
        None => match spec_day_name(s, spec_opt_cfws(s, i)) {
            Some(j) => Some(spec_opt_cfws(s, j)),
            None => None,
        },
    };
    match d {
        Some(j) => match spec_byte(s, j, ascii::COMMA) {
            Some(k) => k,
            None => i,
        },
        None => i,
    }
}

fn day_of_week(s: &[u8], i: usize) -> (r: usize)
    ensures
        r == spec_day_of_week(s@, i as int),
{
    let d = match day_name(s, opt_fws(s, i)) {
        Some(j) => Some(j),
        None => match day_name(s, opt_cfws(s, i)) {
            Some(j) => Some(opt_cfws(s, j)),
            None => None,
        },
    };
    match d {
        Some(j) => match byte(s, j, ascii::COMMA) {
            Some(k) => k,
            None => i,
        },
        None => i,
    }
}

/// `day = [FWS] 1*2DIGIT FWS` (any number of digits is read)
pub open spec fn spec_strict_day(s: Seq<u8>, i: int) -> Option<(int, nat)> {
    match spec_u32(s, spec_opt_fws(s, i)) {
        Some((e, v)) => match spec_fws(s, e) {
            Some(f) => Some((f, v)),
            None => None,
        },
        None => None,
    }
}

/// `obs-day = [CFWS] 1*2DIGIT [CFWS]` (any number of digits is read)
pub open spec fn spec_obs_day(s: Seq<u8>, i: int) -> Option<(int, nat)> {
    match spec_u32(s, spec_opt_cfws(s, i)) {
        Some((e, v)) => Some((spec_opt_cfws(s, e), v)),
        None => None,
    }
}

/// The value of the first digits of a run, at most `n` of them.
pub open spec fn leading_value(s: Seq<u8>, a: int, e: int, n: int) -> nat {
    digits_value(s.subrange(a, if e - a <= n { e } else { a + n }))
}

/// `year = FWS 4*DIGIT FWS`; the value of the first nine digits is the year.
pub open spec fn spec_strict_year(s: Seq<u8>, i: int) -> Option<(int, int)> {
    match spec_fws(s, i) {
        Some(a) => {
            let e = run_end(s, a, ByteClass::Digit);
            if e - a >= 4 {
                match spec_fws(s, e) {
                    Some(f) => Some((f, leading_value(s, a, e, 9) as int)),
                    None => None,
                }
            } else {
                None
            }
        },
        None => None,
    }
}

/// Two-digit years are 2000 to 2049 and 1950 to 1999, three-digit years are
/// counted from 1900 (RFC 5322 section 4.3).
pub open spec fn obs_year_value(d: int) -> int {
    if 0 <= d <= 49 {
        2000 + d
    } else if 50 <= d <= 999 {
        1900 + d
    } else {
        d
    }
}

/// `obs-year = [CFWS] 2*DIGIT [CFWS]`; the first seven digits are read.
pub open spec fn spec_obs_year(s: Seq<u8>, i: int) -> Option<(int, int)> {
    let a = spec_opt_cfws(s, i);
    let e = run_end(s, a, ByteClass::Digit);
    if 0 <= a && e - a >= 2 {
        Some((spec_opt_cfws(s, e), obs_year_value(leading_value(s, a, e, 7) as int)))
    } else {
        None
    }
}

/// `date = day month year`: its end, year, month and day, valid or not.
pub open spec fn spec_strict_date(s: Seq<u8>, i: int) -> Option<(int, int, u32, nat)> {
    match spec_strict_day(s, i) {
        Some((a, d)) => match spec_month(s, a) {
            Some((b, m)) => match spec_strict_year(s, b) {
                Some((c, y)) => Some((c, y, m, d)),
                None => None,
            },
            None => None,
        },
        None => None,
    }
}

pub open spec fn spec_obs_date(s: Seq<u8>, i: int) -> Option<(int, int, u32, nat)> {
    match spec_obs_day(s, i) {
        Some((a, d)) => match spec_month(s, a) {
            Some((b, m)) => match spec_obs_year(s, b) {
                Some((c, y)) => Some((c, y, m, d)),
                None => None,
            },
            None => None,
        },
        None => None,
    }
}

/// A date is kept only when it exists; otherwise the next form is tried.
pub open spec fn spec_date(s: Seq<u8>, i: int) -> Option<(int, int, u32, nat)> {
    match spec_strict_date(s, i) {
        Some((c, y, m, d)) if valid_date(y, m as int, d as int) => Some((c, y, m, d)),
        _ => match spec_obs_date(s, i) {
            Some((c, y, m, d)) if valid_date(y, m as int, d as int) => Some((c, y, m, d)),
            _ => None,
        },
    }
}

fn strict_day(s: &[u8], i: usize) -> (r: Option<(usize, u32)>)
    ensures
        match r {
            Some((j, v)) => spec_strict_day(s@, i as int) == Some((j as int, v as nat)),
            None => spec_strict_day(s@, i as int) is None,
        },
{
    match u32_at(s, opt_fws(s, i)) {
        Some((e, v)) => match fws(s, e) {
            Some(f) => Some((f, v)),
            None => None,
        },
        None => None,
    }
}

fn obs_day(s: &[u8], i: usize) -> (r: Option<(usize, u32)>)
    ensures
        match r {
            Some((j, v)) => spec_obs_day(s@, i as int) == Some((j as int, v as nat)),
            None => spec_obs_day(s@, i as int) is None,
        },
{
    match u32_at(s, opt_cfws(s, i)) {
        Some((e, v)) => Some((opt_cfws(s, e), v)),
        None => None,
    }
}

/// The value of the first `n` (at most nine) digits of the run `a..e`,
/// read as text the way `str::parse::<i32>` reads it after decoding.
fn leading_digits(s: &[u8], a: usize, e: usize, n: usize) -> (r: i32)
    requires
        a < e <= s.len(),
        1 <= n <= 9,
        forall|k: int| a <= k < e ==> crate::text::digits::is_digit(#[trigger] s@[k]),
    ensures
        r == leading_value(s@, a as int, e as int, n as int),
        0 <= r < crate::text::digits::pow10(n as nat),
{
    let end = if e - a <= n {
        e
    } else {
        a + n
    };
    let run = slice_subrange(s, a, end);
    proof {
        assert forall|k: int| 0 <= k < run@.len() implies crate::text::digits::is_digit(
            #[trigger] run@[k],
        ) by {
            assert(run@[k] == s@[a + k]);
        }
        assert(all_ascii(run@)) by {
            assert forall|k: int| 0 <= k < run@.len() implies #[trigger] run@[k] < 0x80 by {
                assert(crate::text::digits::is_digit(run@[k]));
            }
        }
    }
    let text = decode_utf8(run);
    proof {
        crate::text::digits::lemma_digits_value_lt(text@);
        assert(crate::text::digits::pow10(9) == 1_000_000_000) by {
            reveal_with_fuel(crate::text::digits::pow10, 10);
        }
        crate::text::digits::lemma_pow10_mono(text@.len(), 9);
        crate::text::digits::lemma_pow10_mono(text@.len(), n as nat);
    }
    let v = crate::text::digits::ascii_to_u64(text.as_slice());
    v as i32
}

fn strict_year(s: &[u8], i: usize) -> (r: Option<(usize, i32)>)
    ensures
        match r {
            Some((j, y)) => spec_strict_year(s@, i as int) == Some((j as int, y as int)),
            None => spec_strict_year(s@, i as int) is None,
        },
{
    let a = match fws(s, i) {
        Some(a) => a,
        None => return None,
    };
    if a > s.len() {
        assert(run_end(s@, a as int, ByteClass::Digit) == a);
        return None;
    }
    let e = take_run(s, a, ByteClass::Digit);
    proof {
        lemma_run_end(s@, a as int, ByteClass::Digit);
    }
    if e - a < 4 {
        return None;
    }
    match fws(s, e) {
        Some(f) => Some((f, leading_digits(s, a, e, 9))),
        None => None,
    }
}

fn obs_year(s: &[u8], i: usize) -> (r: Option<(usize, i32)>)
    ensures
        match r {
            Some((j, y)) => spec_obs_year(s@, i as int) == Some((j as int, y as int)),
            None => spec_obs_year(s@, i as int) is None,
        },
{
    let a = opt_cfws(s, i);
    if a > s.len() {
        assert(run_end(s@, a as int, ByteClass::Digit) == a);
        return None;
    }
    let e = take_run(s, a, ByteClass::Digit);
    proof {
        lemma_run_end(s@, a as int, ByteClass::Digit);
    }
    if e - a < 2 {
        return None;
    }
    let d = leading_digits(s, a, e, 7);
    assert(crate::text::digits::pow10(7) == 10_000_000) by {
        reveal_with_fuel(crate::text::digits::pow10, 8);
    }
    let y = if 0 <= d && d <= 49 {
        2000 + d
    } else if 50 <= d && d <= 999 {
        1900 + d
    } else {
        d
    };
    Some((opt_cfws(s, e), y))
}

fn strict_date(s: &[u8], i: usize) -> (r: Option<(usize, i32, u32, u32)>)
    ensures
        match r {
            Some((c, y, m, d)) => spec_strict_date(s@, i as int) == Some(
                (c as int, y as int, m, d as nat),
            ),
            None => spec_strict_date(s@, i as int) is None,
        },
{
    let (a, d) = match strict_day(s, i) {
        Some(x) => x,
        None => return None,
    };
    let (b, m) = match month(s, a) {
        Some(x) => x,
        None => return None,
    };
    match strict_year(s, b) {
        Some((c, y)) => Some((c, y, m, d)),
        None => None,
    }
}

fn obs_date(s: &[u8], i: usize) -> (r: Option<(usize, i32, u32, u32)>)
    ensures
        match r {
            Some((c, y, m, d)) => spec_obs_date(s@, i as int) == Some(
                (c as int, y as int, m, d as nat),
            ),
            None => spec_obs_date(s@, i as int) is None,
        },
{
    let (a, d) = match obs_day(s, i) {
        Some(x) => x,
        None => return None,
    };
    let (b, m) = match month(s, a) {
        Some(x) => x,
        None => return None,
    };
    match obs_year(s, b) {
        Some((c, y)) => Some((c, y, m, d)),
        None => None,
    }
}

fn date(s: &[u8], i: usize) -> (r: Option<(usize, i32, u32, u32)>)
    ensures
        match r {
            Some((c, y, m, d)) => spec_date(s@, i as int) == Some((c as int, y as int, m, d as nat))
                && valid_date(y as int, m as int, d as int),
            None => spec_date(s@, i as int) is None,
        },
{
    if let Some((c, y, m, d)) = strict_date(s, i) {
        if chrono_date_exists(y, m, d) {
            return Some((c, y, m, d));
        }
    }
    if let Some((c, y, m, d)) = obs_date(s, i) {
        if chrono_date_exists(y, m, d) {
            return Some((c, y, m, d));
        }
    }
    None
}

// ---------------------------------------------------------------- time

/// `time-of-day = hour ":" minute [ ":" second ]`, each number read by
/// `digit`: its end, hour, minute and second (0 when absent), valid or not.
pub open spec fn spec_time_of_day_with(s: Seq<u8>, i: int, obs: bool) -> Option<
    (int, nat, nat, nat),
> {
    match spec_time_digit(s, i, obs) {
        Some((a, h)) => match spec_byte(s, a, ascii::COL) {
            Some(b) => match spec_time_digit(s, b, obs) {
                Some((c, mi)) => match spec_byte(s, c, ascii::COL) {
                    Some(d) => match spec_time_digit(s, d, obs) {
                        Some((e, sec)) => Some((e, h, mi, sec)),
                        None => Some((c, h, mi, 0)),
                    },
                    None => Some((c, h, mi, 0)),
                },
                None => None,
            },
            None => None,
        },
        None => None,
    }
}

/// A number of a time of day: bare, or (obsolete syntax) surrounded by CFWS.
pub open spec fn spec_time_digit(s: Seq<u8>, i: int, obs: bool) -> Option<(int, nat)> {
    if obs {
        match spec_u32(s, spec_opt_cfws(s, i)) {
            Some((e, v)) => Some((spec_opt_cfws(s, e), v)),
            None => None,
        }
    } else {
        spec_u32(s, i)
    }
}

/// A time of day is kept only when it exists; otherwise the obsolete form
/// is tried.
pub open spec fn spec_time_of_day(s: Seq<u8>, i: int) -> Option<(int, nat, nat, nat)> {
    match spec_time_of_day_with(s, i, false) {
        Some((e, h, mi, sec)) if valid_time(h as int, mi as int, sec as int) => Some(
            (e, h, mi, sec),
        ),
        _ => match spec_time_of_day_with(s, i, true) {
            Some((e, h, mi, sec)) if valid_time(h as int, mi as int, sec as int) => Some(
                (e, h, mi, sec),
            ),
            _ => None,
        },
    }
}

fn time_digit(s: &[u8], i: usize, obs: bool) -> (r: Option<(usize, u32)>)
    ensures
        match r {
            Some((j, v)) => spec_time_digit(s@, i as int, obs) == Some((j as int, v as nat)),
            None => spec_time_digit(s@, i as int, obs) is None,
        },
{
    if obs {
        match u32_at(s, opt_cfws(s, i)) {
            Some((e, v)) => Some((opt_cfws(s, e), v)),
            None => None,
        }
    } else {
        u32_at(s, i)
    }
}

fn time_of_day_with(s: &[u8], i: usize, obs: bool) -> (r: Option<(usize, u32, u32, u32)>)
    ensures
        match r {
            Some((e, h, mi, sec)) => spec_time_of_day_with(s@, i as int, obs) == Some(
                (e as int, h as nat, mi as nat, sec as nat),
            ),
            None => spec_time_of_day_with(s@, i as int, obs) is None,
        },
{
    let (a, h) = match time_digit(s, i, obs) {
        Some(x) => x,
        None => return None,
    };
    let b = match byte(s, a, ascii::COL) {
        Some(b) => b,
        None => return None,
    };
    let (c, mi) = match time_digit(s, b, obs) {
        Some(x) => x,
        None => return None,
    };
    match byte(s, c, ascii::COL) {
        Some(d) => match time_digit(s, d, obs) {
            Some((e, sec)) => Some((e, h, mi, sec)),
            None => Some((c, h, mi, 0)),
        },
        None => Some((c, h, mi, 0)),
    }
}

fn time_of_day(s: &[u8], i: usize) -> (r: Option<(usize, u32, u32, u32)>)
    ensures
        match r {
            Some((e, h, mi, sec)) => spec_time_of_day(s@, i as int) == Some(
                (e as int, h as nat, mi as nat, sec as nat),
            ) && valid_time(h as int, mi as int, sec as int),
            None => spec_time_of_day(s@, i as int) is None,
        },
{
    if let Some((e, h, mi, sec)) = time_of_day_with(s, i, false) {
        if chrono_time_exists(h, mi, sec) {
            return Some((e, h, mi, sec));
        }
    }
    if let Some((e, h, mi, sec)) = time_of_day_with(s, i, true) {
        if chrono_time_exists(h, mi, sec) {
            return Some((e, h, mi, sec));
        }
    }
    None
}

// ---------------------------------------------------------------- zone

pub open spec fn digit_at(s: Seq<u8>, k: int) -> bool {
    0 <= k < s.len() && crate::text::digits::is_digit(s[k])
}

/// The signs of a numeric zone: `[FWS]` then one or more of `+` and `-`;
/// where they start and end.
pub open spec fn spec_zone_signs(s: Seq<u8>, i: int) -> (int, int) {
    let a = spec_opt_fws(s, i);
    (a, run_end(s, a, ByteClass::Sign))
}

/// The signs are followed by four digits: the numeric zone is read.
pub open spec fn numeric_zone_read(s: Seq<u8>, i: int) -> bool {
    let (a, b) = spec_zone_signs(s, i);
    b > a && digit_at(s, b) && digit_at(s, b + 1) && digit_at(s, b + 2) && digit_at(s, b + 3)
}

pub open spec fn two_digits(s: Seq<u8>, k: int) -> int {
    (s[k] - 0x30) * 10 + (s[k + 1] - 0x30)
}

/// The numeric zone is read with more than one sign and valid minutes: the
/// zone parser has no case for such a sign (it panics).
pub open spec fn numeric_zone_panics(s: Seq<u8>, i: int) -> bool {
    let (a, b) = spec_zone_signs(s, i);
    numeric_zone_read(s, i) && two_digits(s, b + 2) < 60 && b - a != 1
}

/// `zone = (FWS ( "+" / "-" ) 4DIGIT)`: its end and offset. The hours are
/// taken modulo 24; minutes of 60 or more are rejected.
pub open spec fn spec_numeric_zone(s: Seq<u8>, i: int) -> Option<(int, int)> {
    let (a, b) = spec_zone_signs(s, i);
    if numeric_zone_read(s, i) && two_digits(s, b + 2) < 60 && b - a == 1 {
        let secs = (two_digits(s, b) % 24) * 3600 + two_digits(s, b + 2) * 60;
        Some((b + 4, if s[a] == ascii::PLUS { secs } else { -secs }))
    } else {
        None
    }
}

/// The offset of an obsolete zone name, lower-cased: universal time, North
/// American zones, military zones (`a` to `i` and `k` to `m` east, `n` to `y`
/// west, `z` universal); an unknown name is universal time.
pub open spec fn obs_zone_offset(l: Seq<u8>) -> int {
    if l == seq![0x65u8, 0x64u8, 0x74u8] {
        -4 * 3600
    } else if l == seq![0x65u8, 0x73u8, 0x74u8] || l == seq![0x63u8, 0x64u8, 0x74u8] {
        -5 * 3600
    } else if l == seq![0x63u8, 0x73u8, 0x74u8] || l == seq![0x6du8, 0x64u8, 0x74u8] {
        -6 * 3600
    } else if l == seq![0x6du8, 0x73u8, 0x74u8] || l == seq![0x70u8, 0x64u8, 0x74u8] {
        -7 * 3600
    } else if l == seq![0x70u8, 0x73u8, 0x74u8] {
        -8 * 3600
    } else if l.len() == 1 && 0x61 <= l[0] <= 0x69 {
        (l[0] - 0x61 + 1) * 3600
    } else if l.len() == 1 && 0x6b <= l[0] <= 0x6d {
        (l[0] - 0x61) * 3600
    } else if l.len() == 1 && 0x6e <= l[0] <= 0x79 {
        -((l[0] - 0x6e + 1) * 3600)
    } else {
        0
    }
}

/// `obs-zone`: `[FWS]` then a name of letters and digits.
pub open spec fn spec_obs_zone(s: Seq<u8>, i: int) -> Option<(int, int)> {
    let a = spec_opt_fws(s, i);
    let e = run_end(s, a, ByteClass::Alnum);
    if 0 <= a && e > a {
        Some((e, obs_zone_offset(lower(s.subrange(a, e)))))
    } else {
        None
    }
}

/// No zone, at the end of the input: universal time.
pub open spec fn spec_no_zone(s: Seq<u8>, i: int) -> Option<(int, int)> {
    let a = spec_opt_cfws(s, i);
    if a == s.len() {
        Some((a, 0))
    } else {
        None
    }
}

pub open spec fn spec_zone(s: Seq<u8>, i: int) -> Option<(int, int)> {
    match spec_numeric_zone(s, i) {
        Some(r) => Some(r),
        None => match spec_obs_zone(s, i) {
            Some(r) => Some(r),
            None => spec_no_zone(s, i),
        },
    }
}

fn numeric_zone(s: &[u8], i: usize) -> (r: Option<(usize, i32)>)
    requires
        !numeric_zone_panics(s@, i as int),
    ensures
        match r {
            Some((j, o)) => spec_numeric_zone(s@, i as int) == Some((j as int, o as int)),
            None => spec_numeric_zone(s@, i as int) is None,
        },
{
    let a = opt_fws(s, i);
    if a >= s.len() {
        assert(run_end(s@, a as int, ByteClass::Sign) == a);
        return None;
    }
    let b = take_run(s, a, ByteClass::Sign);
    proof {
        lemma_run_end(s@, a as int, ByteClass::Sign);
    }
    if b == a || s.len() < 4 || b > s.len() - 4 {
        return None;
    }
    let (d0, d1, d2, d3) = (s[b], s[b + 1], s[b + 2], s[b + 3]);
    if !(0x30 <= d0 && d0 <= 0x39 && 0x30 <= d1 && d1 <= 0x39 && 0x30 <= d2 && d2 <= 0x39 && 0x30
        <= d3 && d3 <= 0x39) {
        return None;
    }
    let zone_hour: i32 = (((d0 - 0x30) * 10 + (d1 - 0x30)) as i32) % 24;
    let zone_min: i32 = ((d2 - 0x30) * 10 + (d3 - 0x30)) as i32;
    if zone_min >= 60 {
        return None;
    }
    let secs = zone_hour * HOUR + zone_min * MIN;
    let o = if s[a] == ascii::PLUS {
        chrono_east(secs)
    } else {
        chrono_west(secs)
    };
    match o {
        Some(o) => Some((b + 4, o)),
        None => None,
    }
}

fn obs_zone(s: &[u8], i: usize) -> (r: Option<(usize, i32)>)
    ensures
        match r {
            Some((j, o)) => spec_obs_zone(s@, i as int) == Some((j as int, o as int)),
            None => spec_obs_zone(s@, i as int) is None,
        },
{
    let a = opt_fws(s, i);
    if a > s.len() {
        assert(run_end(s@, a as int, ByteClass::Alnum) == a);
        return None;
    }
    let e = take_run(s, a, ByteClass::Alnum);
    if e == a {
        return None;
    }
    let l = to_ascii_lowercase(slice_subrange(s, a, e));
    let l = l.as_slice();
    let o = if ascii::bytes_eq(l, [0x75u8, 0x74u8, 0x63u8].as_slice()) || ascii::bytes_eq(
        l,
        [0x75u8, 0x74u8].as_slice(),
    ) || ascii::bytes_eq(l, [0x67u8, 0x6du8, 0x74u8].as_slice()) {
        chrono_west(0)
    } else if ascii::bytes_eq(l, [0x65u8, 0x64u8, 0x74u8].as_slice()) {
        chrono_west(4 * HOUR)
    } else if ascii::bytes_eq(l, [0x65u8, 0x73u8, 0x74u8].as_slice()) || ascii::bytes_eq(
        l,
        [0x63u8, 0x64u8, 0x74u8].as_slice(),
    ) {
        chrono_west(5 * HOUR)
    } else if ascii::bytes_eq(l, [0x63u8, 0x73u8, 0x74u8].as_slice()) || ascii::bytes_eq(
        l,
        [0x6du8, 0x64u8, 0x74u8].as_slice(),
    ) {
        chrono_west(6 * HOUR)
    } else if ascii::bytes_eq(l, [0x6du8, 0x73u8, 0x74u8].as_slice()) || ascii::bytes_eq(
        l,
        [0x70u8, 0x64u8, 0x74u8].as_slice(),
    ) {
        chrono_west(7 * HOUR)
    } else if ascii::bytes_eq(l, [0x70u8, 0x73u8, 0x74u8].as_slice()) {
        chrono_west(8 * HOUR)
    } else if l.len() == 1 && l[0] == 0x7a {
        chrono_west(0)
    } else if l.len() == 1 && 0x61 <= l[0] && l[0] <= 0x69 {
        chrono_east(((l[0] - 0x61 + 1) as i32) * HOUR)
    } else if l.len() == 1 && 0x6b <= l[0] && l[0] <= 0x6d {
        chrono_east(((l[0] - 0x61) as i32) * HOUR)
    } else if l.len() == 1 && 0x6e <= l[0] && l[0] <= 0x79 {
        chrono_west(((l[0] - 0x6e + 1) as i32) * HOUR)
    } else {
        chrono_west(0)
    };
    match o {
        Some(o) => Some((e, o)),
        None => None,
    }
}

fn no_zone(s: &[u8], i: usize) -> (r: Option<(usize, i32)>)
    ensures
        match r {
            Some((j, o)) => spec_no_zone(s@, i as int) == Some((j as int, o as int)),
            None => spec_no_zone(s@, i as int) is None,
        },
{
    let a = opt_cfws(s, i);
    if a == s.len() {
        match chrono_west(0) {
            Some(o) => Some((a, o)),
            None => None,
        }
    } else {
        None
    }
}

fn zone(s: &[u8], i: usize) -> (r: Option<(usize, i32)>)
    requires
        !numeric_zone_panics(s@, i as int),
    ensures
        match r {
            Some((j, o)) => spec_zone(s@, i as int) == Some((j as int, o as int)) && valid_offset(
                o as int,
            ),
            None => spec_zone(s@, i as int) is None,
        },
{
    match numeric_zone(s, i) {
        Some(r) => Some(r),
        None => match obs_zone(s, i) {
            Some(r) => Some(r),
            None => no_zone(s, i),
        },
    }
}

// ---------------------------------------------------------------- date-time

/// Where the zone of a date-time starts, when the date and the time of day
/// parse.
pub open spec fn spec_zone_start(s: Seq<u8>, i: int) -> Option<int> {
    match spec_date(s, spec_day_of_week(s, i)) {
        Some((a, _, _, _)) => match spec_time_of_day(s, a) {
            Some((b, _, _, _)) => Some(b),
            None => None,
        },
        None => None,
    }
}

/// `date_time` has no answer on these inputs: the zone parser reaches a
/// numeric zone with more than one sign (and valid minutes), a case it does
/// not handle (it panics).
pub open spec fn date_time_panics(s: Seq<u8>, i: int) -> bool {
    match spec_zone_start(s, i) {
        Some(b) => numeric_zone_panics(s, b),
        None => false,
    }
}

/// Date and time:
/// ```abnf
/// date-time       =   [ day-of-week "," ] date time [CFWS]
/// time            =   time-of-day zone
/// ```
/// A missing zone at the end of the input is accepted as universal time.
/// The result must be representable.
pub open spec fn spec_date_time(s: Seq<u8>, i: int) -> Option<(int, DateTime)> {
    match spec_date(s, spec_day_of_week(s, i)) {
        Some((a, y, m, d)) => match spec_time_of_day(s, a) {
            Some((b, h, mi, sec)) => match spec_zone(s, b) {
                Some((c, o)) => if utc_in_range(y, m as int, d as int, h as int, mi as int, sec as int, o) {
                    Some(
                        (
                            spec_opt_cfws(s, c),
                            DateTime {
                                year: y as i32,
                                month: m,
                                day: d as u32,
                                hour: h as u32,
                                minute: mi as u32,
                                second: sec as u32,
                                offset: o as i32,
                            },
                        ),
                    )
                } else {
                    None
                },
                None => None,
            },
            None => None,
        },
        None => None,
    }
}

/// Parses a date and time.
pub fn date_time(s: &[u8], i: usize) -> (r: Option<(usize, DateTime)>)
    requires
        !date_time_panics(s@, i as int),
    ensures
        match r {
            Some((j, dt)) => spec_date_time(s@, i as int) == Some((j as int, dt)) && dt.wf(),
            None => spec_date_time(s@, i as int) is None,
        },
{
    let p = day_of_week(s, i);
    let (a, y, m, d) = match date(s, p) {
        Some(x) => x,
        None => return None,
    };
    let (b, h, mi, sec) = match time_of_day(s, a) {
        Some(x) => x,
        None => return None,
    };
    let (c, o) = match zone(s, b) {
        Some(x) => x,
        None => return None,
    };
    if !chrono_local_in_range(y, m, d, h, mi, sec, o) {
        return None;
    }
    let dt = DateTime { year: y, month: m, day: d, hour: h, minute: mi, second: sec, offset: o };
    Some((opt_cfws(s, c), dt))
}

/// Whether `date_time` has an answer at `i`, and the answer: `None` where
/// the parser would reach a numeric zone it does not handle.
pub fn checked_date_time(s: &[u8], i: usize) -> (r: Option<Option<(usize, DateTime)>>)
    ensures
        r is Some <==> !date_time_panics(s@, i as int),
        r matches Some(Some((j, dt))) ==> spec_date_time(s@, i as int) == Some((j as int, dt)),
        r matches Some(None) ==> spec_date_time(s@, i as int) is None,
{
    let p = day_of_week(s, i);
    if let Some((a, _, _, _)) = date(s, p) {
        if let Some((b, _, _, _)) = time_of_day(s, a) {
            if numeric_zone_would_panic(s, b) {
                return None;
            }
        }
    }
    Some(date_time(s, i))
}

fn numeric_zone_would_panic(s: &[u8], i: usize) -> (r: bool)
    ensures
        r == numeric_zone_panics(s@, i as int),
{
    let a = opt_fws(s, i);
    if a >= s.len() {
        assert(run_end(s@, a as int, ByteClass::Sign) == a);
        return false;
    }
    let b = take_run(s, a, ByteClass::Sign);
    if b == a || s.len() < 4 || b > s.len() - 4 {
        return false;
    }
    let (d0, d1, d2, d3) = (s[b], s[b + 1], s[b + 2], s[b + 3]);
    if !(0x30 <= d0 && d0 <= 0x39 && 0x30 <= d1 && d1 <= 0x39 && 0x30 <= d2 && d2 <= 0x39 && 0x30
        <= d3 && d3 <= 0x39) {
        return false;
    }
    let zone_min = (d2 - 0x30) * 10 + (d3 - 0x30);
    zone_min < 60 && b - a != 1
}

// ---------------------------------------------------------------- printing

/// English abbreviations of the days of the week, from Monday.
pub open spec fn weekday_name(w: u32) -> Seq<u8> {
    if w == 0 {
        seq![0x4du8, 0x6fu8, 0x6eu8]
    } else if w == 1 {
        seq![0x54u8, 0x75u8, 0x65u8]
    } else if w == 2 {
        seq![0x57u8, 0x65u8, 0x64u8]
    } else if w == 3 {
        seq![0x54u8, 0x68u8, 0x75u8]
    } else if w == 4 {
        seq![0x46u8, 0x72u8, 0x69u8]
    } else if w == 5 {
        seq![0x53u8, 0x61u8, 0x74u8]
    } else {
        seq![0x53u8, 0x75u8, 0x6eu8]
    }
}

/// English abbreviations of the months, from January (1).
pub open spec fn month_name(m: u32) -> Seq<u8> {
    if m == 1 {
        seq![0x4au8, 0x61u8, 0x6eu8]
    } else if m == 2 {
        seq![0x46u8, 0x65u8, 0x62u8]
    } else if m == 3 {
        seq![0x4du8, 0x61u8, 0x72u8]
    } else if m == 4 {
        seq![0x41u8, 0x70u8, 0x72u8]
    } else if m == 5 {
        seq![0x4du8, 0x61u8, 0x79u8]
    } else if m == 6 {
        seq![0x4au8, 0x75u8, 0x6eu8]
    } else if m == 7 {
        seq![0x4au8, 0x75u8, 0x6cu8]
    } else if m == 8 {
        seq![0x41u8, 0x75u8, 0x67u8]
    } else if m == 9 {
        seq![0x53u8, 0x65u8, 0x70u8]
    } else if m == 10 {
        seq![0x4fu8, 0x63u8, 0x74u8]
    } else if m == 11 {
        seq![0x4eu8, 0x6fu8, 0x76u8]
    } else {
        seq![0x44u8, 0x65u8, 0x63u8]
    }
}

/// A number below 100 on two digits.
pub open spec fn two_digit_text(v: nat) -> Seq<u8> {
    if v < 10 {
        seq![0x30u8] + decimal(v)
    } else {
        decimal(v)
    }
}

/// A signed number in decimal.
pub open spec fn signed_text(v: int) -> Seq<u8> {
    if v < 0 {
        seq![ascii::MINUS] + decimal((-v) as nat)
    } else {
        decimal(v as nat)
    }
}

/// The date of a date-time as text: `day-name ", " day " " month " " year`.
pub open spec fn date_text(dt: DateTime) -> Seq<u8> {
    weekday_name(weekday_number(dt.year, dt.month, dt.day)) + seq![ascii::COMMA, ascii::SP]
        + decimal(dt.day as nat) + seq![ascii::SP] + month_name(dt.month) + seq![ascii::SP]
        + signed_text(dt.year as int)
}

/// The time of day as text: `hh ":" mm ":" ss`.
pub open spec fn time_text(dt: DateTime) -> Seq<u8> {
    two_digit_text(dt.hour as nat) + seq![ascii::COL] + two_digit_text(dt.minute as nat) + seq![
        ascii::COL,
    ] + two_digit_text(dt.second as nat)
}

/// The zone as text: `("+" / "-") hhmm`.
pub open spec fn zone_text(o: int) -> Seq<u8> {
    let a = if o < 0 { -o } else { o };
    seq![if o >= 0 { ascii::PLUS } else { ascii::MINUS }] + two_digit_text((a / 3600) as nat)
        + two_digit_text(((a % 3600) / 60) as nat)
}

/// Which bytes of the text of a date and time are folding whitespace: the
/// single spaces between its parts.
pub open spec fn date_time_marks(dt: DateTime) -> Seq<bool> {
    unmarked(weekday_name(weekday_number(dt.year, dt.month, dt.day)).len() + 1) + seq![true]
        + unmarked(decimal(dt.day as nat).len()) + seq![true] + unmarked(month_name(dt.month).len())
        + seq![true] + unmarked(signed_text(dt.year as int).len()) + seq![true] + unmarked(
        time_text(dt).len(),
    ) + seq![true] + unmarked(zone_text(dt.offset as int).len())
}

/// The text of a date and time, the way it is printed in a header, e.g.
/// `Fri, 21 Nov 1997 09:55:06 -0600`.
pub open spec fn date_time_text(dt: DateTime) -> Seq<u8> {
    date_text(dt) + seq![ascii::SP] + time_text(dt) + seq![ascii::SP] + zone_text(dt.offset as int)
}

fn push_two_digits(out: &mut Vec<u8>, v: u32)
    requires
        v < 100,
    ensures
        final(out)@ == old(out)@ + two_digit_text(v as nat),
{
    if v < 10 {
        out.push(0x30);
    }
    let mut d = u64_decimal(v as u64);
    let ghost o0 = out@;
    out.append(&mut d);
    if v < 10 {
        assert(out@ =~= old(out)@ + two_digit_text(v as nat));
    } else {
        assert(out@ =~= old(out)@ + two_digit_text(v as nat));
    }
}

fn push_name(out: &mut Vec<u8>, a: u8, b: u8, c: u8)
    ensures
        final(out)@ == old(out)@ + seq![a, b, c],
{
    out.push(a);
    out.push(b);
    out.push(c);
    assert(out@ =~= old(out)@ + seq![a, b, c]);
}

fn push_weekday(out: &mut Vec<u8>, w: u32)
    ensures
        final(out)@ == old(out)@ + weekday_name(w),
{
    if w == 0 {
        push_name(out, 0x4d, 0x6f, 0x6e)
    } else if w == 1 {
        push_name(out, 0x54, 0x75, 0x65)
    } else if w == 2 {
        push_name(out, 0x57, 0x65, 0x64)
    } else if w == 3 {
        push_name(out, 0x54, 0x68, 0x75)
    } else if w == 4 {
        push_name(out, 0x46, 0x72, 0x69)
    } else if w == 5 {
        push_name(out, 0x53, 0x61, 0x74)
    } else {
        push_name(out, 0x53, 0x75, 0x6e)
    }
}

fn push_month(out: &mut Vec<u8>, m: u32)
    ensures
        final(out)@ == old(out)@ + month_name(m),
{
    if m == 1 {
        push_name(out, 0x4a, 0x61, 0x6e)
    } else if m == 2 {
        push_name(out, 0x46, 0x65, 0x62)
    } else if m == 3 {
        push_name(out, 0x4d, 0x61, 0x72)
    } else if m == 4 {
        push_name(out, 0x41, 0x70, 0x72)
    } else if m == 5 {
        push_name(out, 0x4d, 0x61, 0x79)
    } else if m == 6 {
        push_name(out, 0x4a, 0x75, 0x6e)
    } else if m == 7 {
        push_name(out, 0x4a, 0x75, 0x6c)
    } else if m == 8 {
        push_name(out, 0x41, 0x75, 0x67)
    } else if m == 9 {
        push_name(out, 0x53, 0x65, 0x70)
    } else if m == 10 {
        push_name(out, 0x4f, 0x63, 0x74)
    } else if m == 11 {
        push_name(out, 0x4e, 0x6f, 0x76)
    } else {
        push_name(out, 0x44, 0x65, 0x63)
    }
}

fn push_decimal(out: &mut Vec<u8>, v: u64)
    ensures
        final(out)@ == old(out)@ + decimal(v as nat),
{
    let mut d = u64_decimal(v);
    out.append(&mut d);
}

fn push_date(out: &mut Vec<u8>, dt: &DateTime)
    requires
        dt.wf(),
    ensures
        final(out)@ == old(out)@ + date_text(*dt),
{
    let w = chrono_weekday_of(dt.year, dt.month, dt.day);
    push_weekday(out, w);
    out.push(ascii::COMMA);
    out.push(ascii::SP);
    push_decimal(out, dt.day as u64);
    out.push(ascii::SP);
    push_month(out, dt.month);
    out.push(ascii::SP);
    push_year(out, dt.year);
    assert(out@ =~= old(out)@ + date_text(*dt));
}

fn push_year(out: &mut Vec<u8>, y: i32)
    ensures
        final(out)@ == old(out)@ + signed_text(y as int),
{
    if y < 0 {
        out.push(ascii::MINUS);
        push_decimal(out, (-(y as i64)) as u64);
        assert(out@ =~= old(out)@ + signed_text(y as int));
    } else {
        push_decimal(out, y as u64);
    }
}

fn push_time(out: &mut Vec<u8>, dt: &DateTime)
    requires
        dt.wf(),
    ensures
        final(out)@ == old(out)@ + time_text(*dt),
{
    push_two_digits(out, dt.hour);
    out.push(ascii::COL);
    push_two_digits(out, dt.minute);
    out.push(ascii::COL);
    push_two_digits(out, dt.second);
    assert(out@ =~= old(out)@ + time_text(*dt));
}

fn push_zone(out: &mut Vec<u8>, o: i32)
    requires
        valid_offset(o as int),
    ensures
        final(out)@ == old(out)@ + zone_text(o as int),
{
    let a: i32 = if o < 0 {
        -o
    } else {
        o
    };
    out.push(
        if o >= 0 {
            ascii::PLUS
        } else {
            ascii::MINUS
        },
    );
    push_two_digits(out, (a / HOUR) as u32);
    push_two_digits(out, ((a % HOUR) / MIN) as u32);
    assert(out@ =~= old(out)@ + zone_text(o as int));
}

impl DateTime {
    /// The date and time as text, the way it is printed in a header.
    pub fn to_bytes(&self) -> (r: Vec<u8>)
        requires
            self.wf(),
        ensures
            r@ == date_time_text(*self),
    {
        let mut out: Vec<u8> = Vec::new();
        push_date(&mut out, self);
        out.push(ascii::SP);
        push_time(&mut out, self);
        out.push(ascii::SP);
        push_zone(&mut out, self.offset);
        assert(out@ =~= date_time_text(*self));
        out
    }
}

proof fn lemma_two_digit_graphic(v: nat)
    ensures
        graphic(two_digit_text(v)),
        two_digit_text(v).len() > 0,
{
    lemma_decimal_graphic(v);
    if v < 10 {
        lemma_graphic_append(seq![0x30u8], decimal(v));
    }
}

/// Each piece of a printed date and time is text without whitespace.
proof fn lemma_date_time_pieces(dt: DateTime)
    ensures
        graphic(weekday_name(weekday_number(dt.year, dt.month, dt.day)) + seq![ascii::COMMA]),
        graphic(decimal(dt.day as nat)),
        graphic(month_name(dt.month)),
        graphic(signed_text(dt.year as int)),
        graphic(time_text(dt)),
        graphic(zone_text(dt.offset as int)),
        signed_text(dt.year as int).len() > 0,
        time_text(dt).len() > 0,
        zone_text(dt.offset as int).len() > 0,
        decimal(dt.day as nat).len() > 0,
{
    let w = weekday_number(dt.year, dt.month, dt.day);
    lemma_graphic_append(weekday_name(w), seq![ascii::COMMA]);
    lemma_decimal_graphic(dt.day as nat);
    if dt.year < 0 {
        lemma_decimal_graphic((-dt.year) as nat);
        lemma_graphic_append(seq![ascii::MINUS], decimal((-dt.year) as nat));
    } else {
        lemma_decimal_graphic(dt.year as nat);
    }
    lemma_two_digit_graphic(dt.hour as nat);
    lemma_two_digit_graphic(dt.minute as nat);
    lemma_two_digit_graphic(dt.second as nat);
    lemma_graphic_append(two_digit_text(dt.hour as nat), seq![ascii::COL]);
    lemma_graphic_append(two_digit_text(dt.hour as nat) + seq![ascii::COL], two_digit_text(dt.minute as nat));
    lemma_graphic_append(two_digit_text(dt.hour as nat) + seq![ascii::COL] + two_digit_text(dt.minute as nat), seq![ascii::COL]);
    lemma_graphic_append(two_digit_text(dt.hour as nat) + seq![ascii::COL] + two_digit_text(dt.minute as nat) + seq![ascii::COL], two_digit_text(dt.second as nat));
    let o = dt.offset as int;
    let a = if o < 0 { -o } else { o };
    let sign = seq![if o >= 0 { ascii::PLUS } else { ascii::MINUS }];
    lemma_two_digit_graphic((a / 3600) as nat);
    lemma_two_digit_graphic(((a % 3600) / 60) as nat);
    lemma_graphic_append(sign, two_digit_text((a / 3600) as nat));
    lemma_graphic_append(sign + two_digit_text((a / 3600) as nat), two_digit_text(((a % 3600) / 60) as nat));
}

fn write_date<F: Formatter>(fmt: &mut F, dt: &DateTime)
    requires
        old(fmt).accepts_writes(),
        dt.wf(),
    ensures
        final(fmt).accepts_writes(),
        final(fmt).written() == old(fmt).written() + date_text(*dt),
        final(fmt).fws_marks() == old(fmt).fws_marks() + unmarked(
            weekday_name(weekday_number(dt.year, dt.month, dt.day)).len() + 1,
        ) + seq![true] + unmarked(decimal(dt.day as nat).len()) + seq![true] + unmarked(
            month_name(dt.month).len(),
        ) + seq![true] + unmarked(signed_text(dt.year as int).len()),
        !line_start(final(fmt).written()),
{
    proof {
        lemma_date_time_pieces(*dt);
    }
    let ghost w0 = fmt.written();
    let ghost m0 = fmt.fws_marks();
    let mut p1: Vec<u8> = Vec::new();
    push_weekday(&mut p1, chrono_weekday_of(dt.year, dt.month, dt.day));
    p1.push(ascii::COMMA);
    write_graphic(fmt, p1.as_slice());
    fmt.write_fws();
    let ghost w1 = fmt.written();
    let mut p2: Vec<u8> = Vec::new();
    push_decimal(&mut p2, dt.day as u64);
    write_graphic(fmt, p2.as_slice());
    fmt.write_fws();
    let ghost w2 = fmt.written();
    let mut p3: Vec<u8> = Vec::new();
    push_month(&mut p3, dt.month);
    write_graphic(fmt, p3.as_slice());
    fmt.write_fws();
    let ghost w3 = fmt.written();
    let mut p4: Vec<u8> = Vec::new();
    push_year(&mut p4, dt.year);
    write_graphic(fmt, p4.as_slice());
    assert(fmt.written() =~= w0 + date_text(*dt));
    assert(fmt.fws_marks() =~= m0 + unmarked(
        weekday_name(weekday_number(dt.year, dt.month, dt.day)).len() + 1,
    ) + seq![true] + unmarked(decimal(dt.day as nat).len()) + seq![true] + unmarked(
        month_name(dt.month).len(),
    ) + seq![true] + unmarked(signed_text(dt.year as int).len()));
}

fn write_time_zone<F: Formatter>(fmt: &mut F, dt: &DateTime)
    requires
        old(fmt).accepts_writes(),
        !line_start(old(fmt).written()),
        dt.wf(),
    ensures
        final(fmt).accepts_writes(),
        final(fmt).written() == old(fmt).written() + seq![ascii::SP] + time_text(*dt) + seq![ascii::SP]
            + zone_text(dt.offset as int),
        final(fmt).fws_marks() == old(fmt).fws_marks() + seq![true] + unmarked(time_text(*dt).len())
            + seq![true] + unmarked(zone_text(dt.offset as int).len()),
{
    proof {
        lemma_date_time_pieces(*dt);
    }
    let ghost w0 = fmt.written();
    let ghost m0 = fmt.fws_marks();
    fmt.write_fws();
    let mut p5: Vec<u8> = Vec::new();
    push_time(&mut p5, dt);
    write_graphic(fmt, p5.as_slice());
    fmt.write_fws();
    let mut p6: Vec<u8> = Vec::new();
    push_zone(&mut p6, dt.offset);
    write_graphic(fmt, p6.as_slice());
    assert(fmt.written() =~= w0 + seq![ascii::SP] + time_text(*dt) + seq![ascii::SP] + zone_text(
        dt.offset as int,
    ));
    assert(fmt.fws_marks() =~= m0 + seq![true] + unmarked(time_text(*dt).len()) + seq![true]
        + unmarked(zone_text(dt.offset as int).len()));
}

/// A date and time is printed as `date_time_text` shows it, with folding
/// whitespace between its parts.
impl Print for DateTime {
    open spec fn print_text(&self) -> Seq<u8> {
        date_time_text(*self)
    }

    open spec fn print_marks(&self) -> Seq<bool> {
        date_time_marks(*self)
    }

    open spec fn printable_after(&self, w: Seq<u8>) -> bool {
        self.wf()
    }

    fn print<F: Formatter>(&self, fmt: &mut F) {
        let ghost w0 = fmt.written();
        let ghost m0 = fmt.fws_marks();
        write_date(fmt, self);
        write_time_zone(fmt, self);
        assert(fmt.written() =~= w0 + date_time_text(*self));
        assert(fmt.fws_marks() =~= m0 + date_time_marks(*self));
    }
}

// ---------------------------------------------------------------- print, then parse

proof fn lemma_two_digit_text(v: nat)
    requires
        v < 100,
    ensures
        two_digit_text(v).len() == 2,
        all_digits(two_digit_text(v)),
        digits_value(two_digit_text(v)) == v,
        two_digit_text(v)[0] - 0x30 == v / 10,
        two_digit_text(v)[1] - 0x30 == v % 10,
{
    lemma_decimal_digits(v);
    lemma_decimal_value(v);
    let t = two_digit_text(v);
    if v < 10 {
        assert(decimal(v) == seq![(0x30 + v) as u8]);
        assert(t =~= seq![0x30u8, (0x30 + v) as u8]);
    } else {
        assert(decimal(v / 10) == seq![(0x30 + v / 10) as u8]);
        assert(t =~= seq![(0x30 + v / 10) as u8, (0x30 + v % 10) as u8]);
    }
    assert(t.drop_last() =~= seq![t[0]]);
    assert(seq![t[0]].drop_last() =~= Seq::<u8>::empty());
    assert(is_digit(t[0]) && is_digit(t[1]));
    assert(digits_value(seq![t[0]].drop_last()) == 0);
    assert(seq![t[0]].last() == t[0]);
    assert(digits_value(seq![t[0]]) == t[0] - 0x30);
    assert(digits_value(t) == digits_value(seq![t[0]]) * 10 + (t[1] - 0x30));
    assert((v / 10) * 10 + v % 10 == v);
}

proof fn lemma_decimal_len_le(n: nat, k: nat)
    requires
        k >= 1,
        n < pow10(k),
    ensures
        decimal(n).len() <= k,
    decreases k,
{
    if n >= 10 {
        assert(pow10(1) == 10) by {
            reveal_with_fuel(pow10, 2);
        }
        if k == 1 {
            assert(false);
        }
        assert(pow10(k) == 10 * pow10((k - 1) as nat));
        lemma_decimal_len_le(n / 10, (k - 1) as nat);
    }
}

proof fn lemma_year_text(y: nat)
    requires
        1000 <= y <= 262142,
    ensures
        4 <= decimal(y).len() <= 9,
{
    lemma_decimal_digits(y / 1000);
    assert(decimal(y).len() == decimal(y / 10).len() + 1);
    assert(decimal(y / 10).len() == decimal(y / 100).len() + 1);
    assert(y / 100 >= 10);
    assert(decimal(y / 100).len() == decimal(y / 1000).len() + 1);
    assert(pow10(9) == 1000000000) by {
        reveal_with_fuel(pow10, 10);
    }
    lemma_decimal_len_le(y, 9);
}

proof fn lemma_weekday_reparse(w: u32)
    ensures
        weekday_name(w).len() == 3,
        is_day_name(
            lower_byte(weekday_name(w)[0]),
            lower_byte(weekday_name(w)[1]),
            lower_byte(weekday_name(w)[2]),
        ),
        0x41 <= weekday_name(w)[0] <= 0x5a,
{
}

proof fn lemma_month_reparse(m: u32)
    requires
        1 <= m <= 12,
    ensures
        month_name(m).len() == 3,
        month_number(
            lower_byte(month_name(m)[0]),
            lower_byte(month_name(m)[1]),
            lower_byte(month_name(m)[2]),
        ) == m,
        0x41 <= month_name(m)[0] <= 0x5a,
{
}

/// The day of the week and its comma, as printed, are read back.
proof fn lemma_reparse_day_of_week(s: Seq<u8>, w: u32)
    requires
        s.len() > 4,
        s.subrange(0, 3) == weekday_name(w),
        s[3] == ascii::COMMA,
    ensures
        spec_day_of_week(s, 0) == 4,
{
    lemma_weekday_reparse(w);
    assert(s[0] == weekday_name(w)[0] && s[1] == weekday_name(w)[1] && s[2] == weekday_name(w)[2]);
    lemma_no_cfws(s, 0);
}

/// The date, as printed after the comma, is read back.
proof fn lemma_reparse_date(s: Seq<u8>, p: int, b: int, d: int, q: int, dt: DateTime)
    requires
        dt.wf(),
        dt.year >= 1000,
        0 <= p,
        b == p + 1 + decimal(dt.day as nat).len(),
        d == b + 4,
        q == d + 1 + decimal(dt.year as nat).len(),
        q + 1 < s.len(),
        s[p] == ascii::SP,
        s.subrange(p + 1, b) == decimal(dt.day as nat),
        s[b] == ascii::SP,
        s.subrange(b + 1, d) == month_name(dt.month),
        s[d] == ascii::SP,
        s.subrange(d + 1, q) == decimal(dt.year as nat),
        s[q] == ascii::SP,
        is_digit(s[q + 1]),
    ensures
        spec_date(s, p) == Some((q + 1, dt.year as int, dt.month, dt.day as nat)),
{
    let dd = decimal(dt.day as nat);
    let yy = decimal(dt.year as nat);
    let mm = month_name(dt.month);
    lemma_decimal_digits(dt.day as nat);
    lemma_decimal_value(dt.day as nat);
    lemma_decimal_digits(dt.year as nat);
    lemma_decimal_value(dt.year as nat);
    lemma_year_text(dt.year as nat);
    lemma_month_reparse(dt.month);
    // day
    assert(s[p + 1] == dd[0]);
    assert(is_digit(dd[0]));
    lemma_fws_one_space(s, p);
    lemma_number_at(s, p + 1, dd);
    assert(s[b + 1] == mm[0]);
    lemma_fws_one_space(s, b);
    assert(spec_strict_day(s, p) == Some((b + 1, dt.day as nat)));
    // month
    assert(s[b + 2] == mm[1] && s[b + 3] == mm[2]);
    assert(spec_month(s, b + 1) == Some((d, dt.month)));
    // year
    assert(s[d + 1] == yy[0]);
    assert(is_digit(yy[0]));
    lemma_fws_one_space(s, d);
    lemma_number_at(s, d + 1, yy);
    lemma_fws_one_space(s, q);
    assert(s.subrange(d + 1, q) == yy);
    assert(leading_value(s, d + 1, q, 9) == dt.year);
    assert(spec_strict_year(s, d) == Some((q + 1, dt.year as int)));
    assert(spec_strict_date(s, p) == Some((q + 1, dt.year as int, dt.month, dt.day as nat)));
}

proof fn lemma_sub_at(s: Seq<u8>, a: int, t: Seq<u8>, k: int)
    requires
        0 <= a,
        a + t.len() <= s.len(),
        s.subrange(a, a + t.len()) == t,
        0 <= k < t.len(),
    ensures
        s[a + k] == t[k],
{
    assert(s.subrange(a, a + t.len())[k] == s[a + k]);
}

proof fn lemma_two_digits_at(s: Seq<u8>, a: int, v: nat)
    requires
        v < 100,
        0 <= a,
        a + 2 < s.len(),
        s[a] == two_digit_text(v)[0],
        s[a + 1] == two_digit_text(v)[1],
        !is_digit(s[a + 2]),
    ensures
        spec_u32(s, a) == Some((a + 2, v)),
{
    lemma_two_digit_text(v);
    assert(s.subrange(a, a + 2) =~= two_digit_text(v));
    lemma_number_at(s, a, two_digit_text(v));
}

/// The numbers and colons of a printed time of day, each read back.
proof fn lemma_time_pieces(s: Seq<u8>, p: int, h: nat, mi: nat, se: nat)
    requires
        h < 100 && mi < 100 && se < 100,
        0 <= p,
        p + 8 < s.len(),
        s.subrange(p, p + 8) == two_digit_text(h) + seq![ascii::COL] + two_digit_text(mi) + seq![
            ascii::COL,
        ] + two_digit_text(se),
        s[p + 8] == ascii::SP,
    ensures
        spec_u32(s, p) == Some((p + 2, h)),
        spec_byte(s, p + 2, ascii::COL) == Some(p + 3),
        spec_u32(s, p + 3) == Some((p + 5, mi)),
        spec_byte(s, p + 5, ascii::COL) == Some(p + 6),
        spec_u32(s, p + 6) == Some((p + 8, se)),
{
    lemma_two_digit_text(h);
    lemma_two_digit_text(mi);
    lemma_two_digit_text(se);
    let a = two_digit_text(h);
    let b = two_digit_text(mi);
    let c = two_digit_text(se);
    let t = a + seq![ascii::COL] + b + seq![ascii::COL] + c;
    assert(t =~= seq![a[0], a[1], ascii::COL, b[0], b[1], ascii::COL, c[0], c[1]]);
    lemma_sub_at(s, p, t, 0);
    lemma_sub_at(s, p, t, 1);
    lemma_sub_at(s, p, t, 2);
    lemma_sub_at(s, p, t, 3);
    lemma_sub_at(s, p, t, 4);
    lemma_sub_at(s, p, t, 5);
    lemma_sub_at(s, p, t, 6);
    lemma_sub_at(s, p, t, 7);
    lemma_two_digits_at(s, p, h);
    lemma_two_digits_at(s, p + 3, mi);
    lemma_two_digits_at(s, p + 6, se);
}

/// The time of day, as printed, is read back.
proof fn lemma_reparse_time(s: Seq<u8>, p: int, h: nat, mi: nat, se: nat)
    requires
        valid_time(h as int, mi as int, se as int),
        0 <= p,
        p + 8 < s.len(),
        s.subrange(p, p + 8) == two_digit_text(h) + seq![ascii::COL] + two_digit_text(mi) + seq![
            ascii::COL,
        ] + two_digit_text(se),
        s[p + 8] == ascii::SP,
    ensures
        spec_time_of_day(s, p) == Some((p + 8, h, mi, se)),
{
    lemma_time_pieces(s, p, h, mi, se);
    assert(spec_time_digit(s, p, false) == Some((p + 2, h)));
    assert(spec_time_digit(s, p + 3, false) == Some((p + 5, mi)));
    assert(spec_time_digit(s, p + 6, false) == Some((p + 8, se)));
    assert(spec_time_of_day_with(s, p, false) == Some((p + 8, h, mi, se)));
}

/// The zone, as printed at the end, is read back when the offset is a
/// whole number of minutes.
proof fn lemma_reparse_zone(s: Seq<u8>, p: int, o: int)
    requires
        valid_offset(o),
        o % 60 == 0,
        0 <= p,
        p + 6 == s.len(),
        s[p] == ascii::SP,
        s.subrange(p + 1, p + 6) == zone_text(o),
    ensures
        spec_zone(s, p) == Some((p + 6, o)),
        spec_zone_signs(s, p) == (p + 1, p + 2),
{
    let a = if o < 0 { -o } else { o };
    let hh = (a / 3600) as nat;
    let mm = ((a % 3600) / 60) as nat;
    lemma_two_digit_text(hh);
    lemma_two_digit_text(mm);
    let z = zone_text(o);
    let h = two_digit_text(hh);
    let m = two_digit_text(mm);
    let sign: u8 = if o >= 0 { ascii::PLUS } else { ascii::MINUS };
    assert(z =~= seq![sign, h[0], h[1], m[0], m[1]]);
    lemma_sub_at(s, p + 1, z, 0);
    lemma_sub_at(s, p + 1, z, 1);
    lemma_sub_at(s, p + 1, z, 2);
    lemma_sub_at(s, p + 1, z, 3);
    lemma_sub_at(s, p + 1, z, 4);
    assert(is_digit(h[0]) && is_digit(h[1]) && is_digit(m[0]) && is_digit(m[1]));
    lemma_fws_one_space(s, p);
    lemma_run_end_exact(s, p + 1, p + 2, ByteClass::Sign);
    assert(spec_zone_signs(s, p) == (p + 1, p + 2));
    assert(two_digits(s, p + 2) == hh);
    assert(two_digits(s, p + 4) == mm);
    assert(hh < 24);
    assert(a == hh * 3600 + mm * 60);
    assert(spec_numeric_zone(s, p) == Some((p + 6, o)));
}

proof fn lemma_prefix_shorter(s: Seq<u8>, x: Seq<u8>, y: Seq<u8>)
    requires
        (x.len() + y.len()) as int <= s.len(),
        s.subrange(0, (x.len() + y.len()) as int) == x + y,
    ensures
        s.subrange(0, x.len() as int) == x,
{
    assert forall|k: int| 0 <= k < x.len() implies s.subrange(0, x.len() as int)[k] == x[k] by {
        assert(s.subrange(0, (x.len() + y.len()) as int)[k] == (x + y)[k]);
    }
    assert(s.subrange(0, x.len() as int) =~= x);
}

/// The last part of a prefix of `s`, and the single byte before it.
proof fn lemma_piece(s: Seq<u8>, x: Seq<u8>, c: u8, z: Seq<u8>)
    requires
        (x.len() + 1 + z.len()) as int <= s.len(),
        s.subrange(0, (x.len() + 1 + z.len()) as int) == x + (seq![c] + z),
    ensures
        s[x.len() as int] == c,
        s.subrange((x.len() + 1) as int, (x.len() + 1 + z.len()) as int) == z,
        s.subrange(0, x.len() as int) == x,
{
    lemma_prefix_shorter(s, x, seq![c] + z);
    let n = x.len() as int;
    assert(s.subrange(0, n + 1 + z.len())[n] == (x + seq![c] + z)[n]);
    assert forall|k: int| 0 <= k < z.len() implies s.subrange(n + 1, n + 1 + z.len())[k] == z[k] by {
        assert(s.subrange(0, n + 1 + z.len())[n + 1 + k] == (x + seq![c] + z)[n + 1 + k]);
    }
    assert(s.subrange(n + 1, n + 1 + z.len()) =~= z);
}

/// Where the day of a printed date and time ends.
spec fn day_end(dt: DateTime) -> int {
    5 + decimal(dt.day as nat).len() as int
}

/// Where the year of a printed date and time ends.
spec fn year_end(dt: DateTime) -> int {
    day_end(dt) + 5 + decimal(dt.year as nat).len() as int
}

/// Where each part of a printed date and time stands in its text.
proof fn lemma_date_time_layout(dt: DateTime)
    requires
        dt.wf(),
        dt.year >= 0,
    ensures
        date_time_text(dt).len() == year_end(dt) + 15,
        date_time_text(dt).subrange(0, 3) == weekday_name(weekday_number(dt.year, dt.month, dt.day)),
        date_time_text(dt)[3] == ascii::COMMA,
        date_time_text(dt)[4] == ascii::SP,
        date_time_text(dt).subrange(5, day_end(dt)) == decimal(dt.day as nat),
        date_time_text(dt)[day_end(dt)] == ascii::SP,
        date_time_text(dt).subrange(day_end(dt) + 1, day_end(dt) + 4) == month_name(dt.month),
        date_time_text(dt)[day_end(dt) + 4] == ascii::SP,
        date_time_text(dt).subrange(day_end(dt) + 5, year_end(dt)) == decimal(dt.year as nat),
        date_time_text(dt)[year_end(dt)] == ascii::SP,
        date_time_text(dt).subrange(year_end(dt) + 1, year_end(dt) + 9) == time_text(dt),
        date_time_text(dt)[year_end(dt) + 9] == ascii::SP,
        date_time_text(dt).subrange(year_end(dt) + 10, year_end(dt) + 15) == zone_text(
            dt.offset as int,
        ),
{
    let w = weekday_name(weekday_number(dt.year, dt.month, dt.day));
    let dd = decimal(dt.day as nat);
    let mm = month_name(dt.month);
    let yy = decimal(dt.year as nat);
    let tt = time_text(dt);
    let zz = zone_text(dt.offset as int);
    let s = date_time_text(dt);
    lemma_weekday_reparse(weekday_number(dt.year, dt.month, dt.day));
    lemma_month_reparse(dt.month);
    lemma_two_digit_text(dt.hour as nat);
    lemma_two_digit_text(dt.minute as nat);
    lemma_two_digit_text(dt.second as nat);
    let o = dt.offset as int;
    let a = if o < 0 { -o } else { o };
    lemma_two_digit_text((a / 3600) as nat);
    lemma_two_digit_text(((a % 3600) / 60) as nat);
    assert(zz.len() == 5);
    assert(tt.len() == 8);
    assert(signed_text(dt.year as int) == yy);
    let x1 = w + seq![ascii::COMMA];
    let x2 = x1 + seq![ascii::SP] + dd;
    let x3 = x2 + seq![ascii::SP] + mm;
    let x4 = x3 + seq![ascii::SP] + yy;
    let x5 = x4 + seq![ascii::SP] + tt;
    assert(s =~= x5 + seq![ascii::SP] + zz);
    assert(s.subrange(0, s.len() as int) =~= s);
    assert(x5 + seq![ascii::SP] + zz =~= x5 + (seq![ascii::SP] + zz));
    lemma_piece(s, x5, ascii::SP, zz);
    assert(x5 =~= x4 + (seq![ascii::SP] + tt));
    lemma_piece(s, x4, ascii::SP, tt);
    assert(x4 =~= x3 + (seq![ascii::SP] + yy));
    lemma_piece(s, x3, ascii::SP, yy);
    assert(x3 =~= x2 + (seq![ascii::SP] + mm));
    lemma_piece(s, x2, ascii::SP, mm);
    assert(x2 =~= x1 + (seq![ascii::SP] + dd));
    lemma_piece(s, x1, ascii::SP, dd);
    lemma_prefix_shorter(s, w, seq![ascii::COMMA]);
    assert(s.subrange(0, 4)[3] == x1[3]);
}

/// Each part of a printed date and time is read back by its parser.
#[verifier::spinoff_prover]
#[verifier::rlimit(40)]
proof fn lemma_reparse_parts(dt: DateTime)
    requires
        dt.wf(),
        dt.year >= 1000,
        dt.offset % 60 == 0,
    ensures
        date_time_text(dt).len() == year_end(dt) + 15,
        spec_day_of_week(date_time_text(dt), 0) == 4,
        spec_date(date_time_text(dt), 4) == Some(
            (year_end(dt) + 1, dt.year as int, dt.month, dt.day as nat),
        ),
        spec_time_of_day(date_time_text(dt), year_end(dt) + 1) == Some(
            (year_end(dt) + 9, dt.hour as nat, dt.minute as nat, dt.second as nat),
        ),
        spec_zone(date_time_text(dt), year_end(dt) + 9) == Some(
            (year_end(dt) + 15, dt.offset as int),
        ),
        spec_zone_signs(date_time_text(dt), year_end(dt) + 9) == (year_end(dt) + 10, year_end(dt) + 11),
{
    let s = date_time_text(dt);
    let b = day_end(dt);
    let d = b + 4;
    let q = year_end(dt);
    lemma_date_time_layout(dt);
    lemma_decimal_digits(dt.year as nat);
    lemma_two_digit_text(dt.hour as nat);
    assert(time_text(dt)[0] == two_digit_text(dt.hour as nat)[0]);
    assert(s[q + 1] == s.subrange(q + 1, q + 9)[0]);
    lemma_reparse_day_of_week(s, weekday_number(dt.year, dt.month, dt.day));
    lemma_reparse_date(s, 4, b, d, q, dt);
    lemma_reparse_time(s, q + 1, dt.hour as nat, dt.minute as nat, dt.second as nat);
    lemma_reparse_zone(s, q + 9, dt.offset as int);
}

/// Print, then parse: a date and time with a year of four digits or more
/// and a zone offset of whole minutes reads back from its printed text as
/// itself (and the zone parser has an answer on it).
#[verifier::spinoff_prover]
#[verifier::rlimit(100)]
pub proof fn law_date_time_print_parse(dt: DateTime)
    requires
        dt.wf(),
        dt.year >= 1000,
        dt.offset % 60 == 0,
    ensures
        spec_date_time(date_time_text(dt), 0) == Some((date_time_text(dt).len() as int, dt)),
        !date_time_panics(date_time_text(dt), 0),
{
    let s = date_time_text(dt);
    let q = year_end(dt);
    lemma_reparse_parts(dt);
    lemma_no_cfws(s, s.len() as int);
    assert(spec_zone_start(s, 0) == Some(q + 9));
    assert(!numeric_zone_panics(s, q + 9));
    let r = DateTime {
        year: (dt.year as int) as i32,
        month: dt.month,
        day: (dt.day as nat) as u32,
        hour: (dt.hour as nat) as u32,
        minute: (dt.minute as nat) as u32,
        second: (dt.second as nat) as u32,
        offset: (dt.offset as int) as i32,
    };
    assert(r == dt);
}


proof fn lemma_north_american_zone(s: Seq<u8>, i: int, h: int)
    requires
        0 <= i,
        i + 3 <= s.len(),
        i + 3 == s.len() || !in_class(ByteClass::Alnum, s[i + 3]),
        ({
            let l = lower(s.subrange(i, i + 3));
            (l == seq![0x65u8, 0x64u8, 0x74u8] && h == 4) ||
            (l == seq![0x65u8, 0x73u8, 0x74u8] && h == 5) ||
            (l == seq![0x63u8, 0x64u8, 0x74u8] && h == 5) ||
            (l == seq![0x63u8, 0x73u8, 0x74u8] && h == 6) ||
            (l == seq![0x6du8, 0x64u8, 0x74u8] && h == 6) ||
            (l == seq![0x6du8, 0x73u8, 0x74u8] && h == 7) ||
            (l == seq![0x70u8, 0x64u8, 0x74u8] && h == 7) ||
            (l == seq![0x70u8, 0x73u8, 0x74u8] && h == 8)
        }),
    ensures
        spec_obs_zone(s, i) == Some((i + 3, -h * 3600)),
        spec_numeric_zone(s, i) is None,
{
    let l = lower(s.subrange(i, i + 3));
    assert forall|x: int| i <= x < i + 3 implies in_class(ByteClass::Alnum, #[trigger] s[x]) by {
        assert(l[x - i] == lower_byte(s[x]));
    }
    assert(l[0] == lower_byte(s[i]));
    lemma_no_cfws(s, i);
    lemma_run_end_exact(s, i, i + 3, ByteClass::Alnum);
    lemma_run_end_exact(s, i, i, ByteClass::Sign);
}

/// The obsolete North American zone names (RFC 5322 section 4.3), in any
/// case, where the input has them as a whole name: `EDT` is 4 hours west of
/// universal time, `EST` and `CDT` 5, `CST` and `MDT` 6, `MST` and `PDT` 7,
/// `PST` 8.
pub proof fn law_north_american_zones(s: Seq<u8>, i: int, h: int)
    requires
        0 <= i,
        i + 3 <= s.len(),
        i + 3 == s.len() || !in_class(ByteClass::Alnum, s[i + 3]),
        ({
            let l = lower(s.subrange(i, i + 3));
            (l == seq![0x65u8, 0x64u8, 0x74u8] && h == 4) ||
            (l == seq![0x65u8, 0x73u8, 0x74u8] && h == 5) ||
            (l == seq![0x63u8, 0x64u8, 0x74u8] && h == 5) ||
            (l == seq![0x63u8, 0x73u8, 0x74u8] && h == 6) ||
            (l == seq![0x6du8, 0x64u8, 0x74u8] && h == 6) ||
            (l == seq![0x6du8, 0x73u8, 0x74u8] && h == 7) ||
            (l == seq![0x70u8, 0x64u8, 0x74u8] && h == 7) ||
            (l == seq![0x70u8, 0x73u8, 0x74u8] && h == 8)
        }),
    ensures
        spec_obs_zone(s, i) == Some((i + 3, -h * 3600)),
        spec_zone(s, i) == Some((i + 3, -h * 3600)),
        -h * 3600 < 0,
{
    lemma_north_american_zone(s, i, h);
}


proof fn lemma_obs_zone_name(s: Seq<u8>, i: int, n: int)
    requires
        0 <= i,
        0 < n,
        i + n <= s.len(),
        i + n == s.len() || !in_class(ByteClass::Alnum, s[i + n]),
        forall|x: int| i <= x < i + n ==> 0x61 <= #[trigger] lower_byte(s[x]) <= 0x7a,
    ensures
        spec_obs_zone(s, i) == Some((i + n, obs_zone_offset(lower(s.subrange(i, i + n))))),
        spec_zone(s, i) == spec_obs_zone(s, i),
{
    assert forall|x: int| i <= x < i + n implies in_class(ByteClass::Alnum, #[trigger] s[x]) by {
        assert(0x61 <= lower_byte(s[x]) <= 0x7a);
    }
    assert(0x61 <= lower_byte(s[i]) <= 0x7a);
    lemma_no_cfws(s, i);
    lemma_run_end_exact(s, i, i + n, ByteClass::Alnum);
    lemma_run_end_exact(s, i, i, ByteClass::Sign);
    assert(spec_numeric_zone(s, i) is None);
}

/// The military zones (RFC 5322 section 4.3), one letter in any case, where
/// the input has them as a whole name: `A` to `I` are 1 to 9 hours east of
/// universal time, `K` to `M` 10 to 12 hours east, `N` to `Y` 1 to 12 hours
/// west, and `Z` is universal time.
pub proof fn law_military_zones(s: Seq<u8>, i: int)
    requires
        0 <= i,
        i + 1 <= s.len(),
        i + 1 == s.len() || !in_class(ByteClass::Alnum, s[i + 1]),
        0x61 <= lower_byte(s[i]) <= 0x7a,
        lower_byte(s[i]) != 0x6a,
    ensures
        ({
            let c = lower_byte(s[i]) as int;
            let o = if 0x61 <= c <= 0x69 {
                (c - 0x60) * 3600
            } else if 0x6b <= c <= 0x6d {
                (c - 0x61) * 3600
            } else if 0x6e <= c <= 0x79 {
                -(c - 0x6d) * 3600
            } else {
                0
            };
            &&& spec_zone(s, i) == Some((i + 1, o))
            &&& spec_obs_zone(s, i) == Some((i + 1, o))
        }),
{
    lemma_obs_zone_name(s, i, 1);
    let l = lower(s.subrange(i, i + 1));
    assert(l =~= seq![lower_byte(s[i])]);
}

/// Universal time by name (`UT`, `UTC`, `GMT`, in any case), where the input
/// has it as a whole name, is an offset of zero.
pub proof fn law_universal_zone_names(s: Seq<u8>, i: int, n: int)
    requires
        0 <= i,
        0 <= n,
        i + n <= s.len(),
        i + n == s.len() || !in_class(ByteClass::Alnum, s[i + n]),
        ({
            let l = lower(s.subrange(i, i + n));
            l == seq![0x75u8, 0x74u8] || l == seq![0x75u8, 0x74u8, 0x63u8] || l == seq![0x67u8, 0x6du8, 0x74u8]
        }),
    ensures
        spec_zone(s, i) == Some((i + n, 0int)),
{
    let l = lower(s.subrange(i, i + n));
    assert(l.len() == n);
    assert(forall|k: int| 0 <= k < l.len() ==> 0x61 <= #[trigger] l[k] <= 0x7a);
    assert forall|x: int| i <= x < i + n implies 0x61 <= #[trigger] lower_byte(s[x]) <= 0x7a by {
        assert(l[x - i] == lower_byte(s[x]));
    }
    lemma_obs_zone_name(s, i, n);
}

} // verus!
