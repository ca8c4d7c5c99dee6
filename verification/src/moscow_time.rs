use vstd::prelude::*;
use crate::clock::Now;
use crate::text::digit_char;

verus! {

/// Moscow's offset from UTC in seconds (no daylight saving since 2014).
pub const MOSCOW_OFFSET_SECONDS: i32 = 10800;

/// Two decimal digits of `n` (below 100), with a leading zero.
pub open spec fn two_digits(n: int) -> Seq<char> {
    seq![digit_char((n / 10) as nat), digit_char((n % 10) as nat)]
}

/// Four decimal digits of `n` (below 10000), with leading zeros.
pub open spec fn four_digits(n: int) -> Seq<char> {
    two_digits(n / 100) + two_digits(n % 100)
}

/// A leap year of the Gregorian calendar.
pub open spec fn is_leap_year(y: int) -> bool {
    (y % 4 == 0 && y % 100 != 0) || y % 400 == 0
}

pub open spec fn days_in_month(y: int, m: int) -> int {
    if m == 2 {
        if is_leap_year(y) { 29 } else { 28 }
    } else if m == 4 || m == 6 || m == 9 || m == 11 {
        30
    } else {
        31
    }
}

/// A date of the Gregorian calendar and a time of day (no leap second).
pub open spec fn valid_wall_clock(year: int, month: int, day: int, hour: int, minute: int, second: int) -> bool {
    &&& 1 <= month <= 12
    &&& 1 <= day <= days_in_month(year, month)
    &&& 0 <= hour < 24
    &&& 0 <= minute < 60
    &&& 0 <= second < 60
}

/// `YYYY-MM-DDTHH:MM:SS+03:00`.
pub open spec fn moscow_rfc3339_text(year: int, month: int, day: int, hour: int, minute: int, second: int) -> Seq<char> {
    four_digits(year) + "-"@ + two_digits(month) + "-"@ + two_digits(day) + "T"@ + two_digits(hour) + ":"@
        + two_digits(minute) + ":"@ + two_digits(second) + "+03:00"@
}

/// The civil date (year, month, day) of a day counted from 1970-01-01 (not
/// before it).
pub open spec fn civil_from_days(days: int) -> (int, int, int) {
    let z = days + 719468;
    let era = z / 146097;
    let doe = z - era * 146097;
    let yoe = (doe - doe / 1460 + doe / 36524 - doe / 146096) / 365;
    let doy = doe - (365 * yoe + yoe / 4 - yoe / 100);
    let mp = (5 * doy + 2) / 153;
    let d = doy - (153 * mp + 2) / 5 + 1;
    let m = if mp < 10 { mp + 3 } else { mp - 9 };
    let y = yoe + era * 400 + if m <= 2 { 1int } else { 0int };
    (y, m, d)
}

/// `DD.MM.YYYY HH:MM UTC+3` of the Moscow wall-clock time of the instant `secs`.
pub open spec fn moscow_deadline_text(secs: int) -> Seq<char> {
    let local = secs + MOSCOW_OFFSET_SECONDS;
    let (y, m, d) = civil_from_days(local / 86400);
    let rem = local % 86400;
    two_digits(d) + "."@ + two_digits(m) + "."@ + four_digits(y) + " "@ + two_digits(rem / 3600) + ":"@
        + two_digits((rem % 3600) / 60) + " UTC+3"@
}

/// The latest instant whose Moscow date still has a four-digit year
/// (9999-12-31T23:59:59+03:00).
pub open spec fn last_four_digit_moscow_instant() -> int {
    253402300799 - MOSCOW_OFFSET_SECONDS
}

/// The RFC 3339 text of the wall-clock time `year-month-day hour:minute:second`
/// in the zone `offset_secs` east of UTC, as chrono writes it
/// (`DateTime::<FixedOffset>::to_rfc3339`); `None` when that is no date and
/// time, or the offset is out of range.
pub uninterp spec fn wall_clock_rfc3339(
    year: int,
    month: int,
    day: int,
    hour: int,
    minute: int,
    second: int,
    offset_secs: int,
) -> Option<Seq<char>>;

pub open spec fn opt_text(o: Option<String>) -> Option<Seq<char>> {
    match o {
        Some(s) => Some(s@),
        None => None,
    }
}

/// Calls `NaiveDate::from_ymd_opt`, `NaiveDate::and_hms_opt`,
/// `FixedOffset::east_opt`, `TimeZone::from_local_datetime` (which has exactly one
/// answer for a fixed offset) and `DateTime::to_rfc3339`. The contract names the
/// result; chrono's calendar and formatting are not restated.
#[verifier::external_body]
fn rfc3339_at_offset(
    year: i32,
    month: u32,
    day: u32,
    hour: u32,
    minute: u32,
    second: u32,
    offset_secs: i32,
) -> (res: Option<String>)
    ensures
        opt_text(res) == wall_clock_rfc3339(
            year as int,
            month as int,
            day as int,
            hour as int,
            minute as int,
            second as int,
            offset_secs as int,
        ),
        offset_secs == MOSCOW_OFFSET_SECONDS && 0 <= year <= 9999 ==> opt_text(res) == if valid_wall_clock(
            year as int,
            month as int,
            day as int,
            hour as int,
            minute as int,
            second as int,
        ) {
            Some(moscow_rfc3339_text(year as int, month as int, day as int, hour as int, minute as int, second as int))
        } else {
            None
        },
{
    let local = chrono::NaiveDate::from_ymd_opt(year, month, day)?.and_hms_opt(hour, minute, second)?;
    let zone = chrono::FixedOffset::east_opt(offset_secs)?;
    chrono::TimeZone::from_local_datetime(&zone, &local).single().map(|t| t.to_rfc3339())
}

/// The start of a Moscow day (00:00:00) in RFC 3339; `None` when the numbers
/// name no date.
pub fn moscow_date_to_rfc3339_start(year: i32, month: u32, day: u32) -> (res: Option<String>)
    ensures
        opt_text(res) == wall_clock_rfc3339(year as int, month as int, day as int, 0, 0, 0, MOSCOW_OFFSET_SECONDS as int),
        0 <= year <= 9999 ==> opt_text(res) == if valid_wall_clock(year as int, month as int, day as int, 0, 0, 0) {
            Some(moscow_rfc3339_text(year as int, month as int, day as int, 0, 0, 0))
        } else {
            None
        },
{
    rfc3339_at_offset(year, month, day, 0, 0, 0, MOSCOW_OFFSET_SECONDS)
}

/// The last second of a Moscow day (23:59:59) in RFC 3339; `None` when the
/// numbers name no date.
pub fn moscow_date_to_rfc3339_end(year: i32, month: u32, day: u32) -> (res: Option<String>)
    ensures
        opt_text(res) == wall_clock_rfc3339(year as int, month as int, day as int, 23, 59, 59, MOSCOW_OFFSET_SECONDS as int),
        0 <= year <= 9999 ==> opt_text(res) == if valid_wall_clock(year as int, month as int, day as int, 23, 59, 59) {
            Some(moscow_rfc3339_text(year as int, month as int, day as int, 23, 59, 59))
        } else {
            None
        },
{
    rfc3339_at_offset(year, month, day, 23, 59, 59, MOSCOW_OFFSET_SECONDS)
}

/// The pattern of a payment deadline shown to users.
pub open spec fn deadline_pattern() -> Seq<char> {
    "%d.%m.%Y %H:%M UTC+3"@
}

/// The instant `secs` seconds after the Unix epoch, shifted to the zone
/// `offset_secs` east of UTC and written by chrono's `format` with `pattern`;
/// `None` when the instant or the offset is out of chrono's range.
pub uninterp spec fn timestamp_text(secs: int, offset_secs: int, pattern: Seq<char>) -> Option<Seq<char>>;

/// Calls `FixedOffset::east_opt`, `DateTime::from_timestamp(secs, 0)`,
/// `DateTime::with_timezone` and `DateTime::format(pattern).to_string()`. It is
/// called only with the deadline pattern, which chrono can write (an invalid
/// pattern would make `to_string` panic). The contract names the result, and
/// states it for the Moscow offset and instants whose Moscow date has a year from
/// 1970 to 9999: the day, month, four-digit year, hour and minute of the Moscow
/// wall-clock time, then " UTC+3".
#[verifier::external_body]
fn format_timestamp(secs: i64, offset_secs: i32, pattern: &str) -> (res: Option<String>)
    requires
        pattern@ == deadline_pattern(),
    ensures
        opt_text(res) == timestamp_text(secs as int, offset_secs as int, pattern@),
        offset_secs == MOSCOW_OFFSET_SECONDS && -MOSCOW_OFFSET_SECONDS <= secs <= last_four_digit_moscow_instant()
            ==> opt_text(res) == Some(moscow_deadline_text(secs as int)),
{
    let zone = chrono::FixedOffset::east_opt(offset_secs)?;
    chrono::DateTime::from_timestamp(secs, 0).map(|t| t.with_timezone(&zone).format(pattern).to_string())
}

/// The payment deadline of an invoice as shown to users, in Moscow time; when
/// the invoice's timestamp is out of range, an hour after `now`.
pub fn invoice_deadline(expired_at: i64, now: Now) -> (res: Option<String>)
    requires
        now.valid(),
    ensures
        opt_text(res) == match timestamp_text(expired_at as int, MOSCOW_OFFSET_SECONDS as int, deadline_pattern()) {
            Some(t) => Some(t),
            None => timestamp_text(now.secs + 3600, MOSCOW_OFFSET_SECONDS as int, deadline_pattern()),
        },
        -MOSCOW_OFFSET_SECONDS <= expired_at <= last_four_digit_moscow_instant() ==> opt_text(res) == Some(
            moscow_deadline_text(expired_at as int),
        ),
{
    let pattern = "%d.%m.%Y %H:%M UTC+3";
    match format_timestamp(expired_at, MOSCOW_OFFSET_SECONDS, pattern) {
        Some(t) => Some(t),
        None => format_timestamp(now.secs + 3600, MOSCOW_OFFSET_SECONDS, pattern),
    }
}

} // verus!
