//! Calendar and clock model.
//!
//! Instants are whole seconds since the Unix epoch (UTC).  Local wall-clock
//! values are a calendar date plus the seconds elapsed since local midnight.
//! Converting between the two depends on the machine's time zone, so those
//! conversions promise only what holds in every time zone.
use vstd::prelude::*;

use chrono::{Datelike, Local, LocalResult, NaiveDate, TimeZone, Timelike};

use crate::text::push_char;
use vstd::arithmetic::div_mod::lemma_fundamental_div_mod;

verus! {

/// Earliest year of the calendar the date library supports.
pub const MIN_YEAR: i32 = -262143;

/// Latest year of the calendar the date library supports.
pub const MAX_YEAR: i32 = 262142;

/// Seconds since the epoch of `MIN_YEAR`-01-01T00:00:00Z.
pub const MIN_TIMESTAMP: i64 = -8334601228800;

/// Seconds since the epoch of `MAX_YEAR`-12-31T23:59:59Z.
pub const MAX_TIMESTAMP: i64 = 8210266876799;

/// Seconds in one day.
pub const DAY_SECONDS: u32 = 86400;

/// A calendar date in the proleptic Gregorian calendar.
#[derive(Debug, Clone, Copy, PartialEq, Eq)]
pub struct LocalDate {
    pub year: i32,
    pub month: u32,
    pub day: u32,
}

/// A local wall-clock moment: a date and the seconds since its midnight.
#[derive(Debug, Clone, Copy, PartialEq, Eq)]
pub struct LocalDateTime {
    pub date: LocalDate,
    pub seconds: u32,
}

/// How the local time zone maps a wall-clock moment to instants.
#[derive(Debug, Clone, Copy, PartialEq, Eq)]
pub enum LocalLookup {
    /// Exactly one instant shows this wall-clock time.
    Single(i64),
    /// The wall-clock time occurs twice (clocks were turned back); the earlier
    /// instant comes first.
    Ambiguous(i64, i64),
    /// The wall-clock time is skipped (clocks were turned forward).
    Missing,
}

pub open spec fn is_leap_year(y: int) -> bool {
    (y % 4 == 0 && y % 100 != 0) || y % 400 == 0
}

/// Number of days of month `m` (1–12) of year `y`.
pub open spec fn month_length(y: int, m: int) -> int {
    if m == 2 {
        if is_leap_year(y) {
            29
        } else {
            28
        }
    } else if m == 4 || m == 6 || m == 9 || m == 11 {
        30
    } else {
        31
    }
}

/// The date exists in the calendar.
pub open spec fn valid_date(d: LocalDate) -> bool {
    1 <= d.month <= 12 && 1 <= d.day <= month_length(d.year as int, d.month as int)
}

/// The date exists and lies in the supported years.
pub open spec fn supported_date(d: LocalDate) -> bool {
    valid_date(d) && MIN_YEAR <= d.year <= MAX_YEAR
}

/// The local moment exists and lies in the supported years.
pub open spec fn supported_local(l: LocalDateTime) -> bool {
    supported_date(l.date) && l.seconds < DAY_SECONDS
}

/// The instant lies in the supported range.
pub open spec fn timestamp_in_range(s: int) -> bool {
    MIN_TIMESTAMP <= s <= MAX_TIMESTAMP
}

/// The instant lies in the supported range with a day to spare on each side,
/// so that its local date is a supported date in every time zone.
pub open spec fn instant_ok(s: int) -> bool {
    MIN_TIMESTAMP + 86400 <= s <= MAX_TIMESTAMP - 86400
}

/// The instant lies far enough inside the supported range that adding any
/// `u32` number of minutes, or a few days, keeps it there.  Every instant of
/// a real clock does.
pub open spec fn schedulable(s: int) -> bool {
    MIN_TIMESTAMP + 300_000_000_000 <= s <= MAX_TIMESTAMP - 300_000_000_000
}

/// The instant lies within a day of the years 0000–9999, the years an
/// RFC 3339 timestamp can name.
pub open spec fn rfc3339_range(s: int) -> bool {
    -62_167_305_600 <= s <= 253_402_387_199
}

/// The date is a supported date with a whole year to spare on each side.
pub open spec fn spare_date(d: LocalDate) -> bool {
    valid_date(d) && MIN_YEAR < d.year < MAX_YEAR
}

/// The date is a supported date with two whole years to spare on each side.
pub open spec fn inner_date(d: LocalDate) -> bool {
    valid_date(d) && MIN_YEAR + 1 < d.year < MAX_YEAR - 1
}

/// The date is a supported date with three whole years to spare on each
/// side; the local date of every schedulable instant is one.
pub open spec fn deep_date(d: LocalDate) -> bool {
    valid_date(d) && MIN_YEAR + 2 < d.year < MAX_YEAR - 2
}

pub open spec fn date_tuple(d: LocalDate) -> (i32, u32, u32) {
    (d.year, d.month, d.day)
}

/// The number of days from 1970-01-01 to the date in the proleptic
/// Gregorian calendar (negative before it).
pub open spec fn day_number(d: LocalDate) -> int {
    let y: int = if d.month <= 2 {
        d.year - 1
    } else {
        d.year as int
    };
    let era: int = y / 400;
    let yoe: int = y - era * 400;
    let mp: int = if d.month > 2 {
        d.month - 3
    } else {
        d.month + 9
    };
    let doy: int = (153 * mp + 2) / 5 + d.day - 1;
    let doe: int = yoe * 365 + yoe / 4 - yoe / 100 + doy;
    era * 146097 + doe - 719468
}

/// The wall-clock reading as seconds since the epoch, as if it were UTC.
pub open spec fn wall_seconds(l: LocalDateTime) -> int {
    day_number(l.date) * 86400 + l.seconds
}

/// The instant lies within a day of the wall-clock reading: what a time
/// zone can make of it, since an offset from UTC is less than a day.
pub open spec fn within_offset(l: LocalDateTime, u: int) -> bool {
    wall_seconds(l) - 86400 < u < wall_seconds(l) + 86400
}

/// The instant an unresolved wall-clock reading is placed at: one that
/// shows the reading, or a moment at most three hours later when the
/// reading falls in a skipped hour.
pub open spec fn resolves_near(l: LocalDateTime, u: int) -> bool {
    wall_seconds(l) - 86400 < u < wall_seconds(l) + 86400 + 10800
}

// ---------------------------------------------------------------------------
// Calendar arithmetic written out here
// ---------------------------------------------------------------------------
/// Number of days in a month; `Err` only when the following month does not
/// exist in the supported calendar (December of the last supported year).
pub fn days_in_month(year: i32, month: u32) -> (r: Result<u32, ()>)
    requires
        MIN_YEAR <= year <= MAX_YEAR,
        1 <= month <= 12,
    ensures
        match r {
            Ok(n) => !(month == 12 && year == MAX_YEAR) && n == month_length(
                year as int,
                month as int,
            ),
            Err(_) => month == 12 && year == MAX_YEAR,
        },
{
    if month == 12 && year == MAX_YEAR {
        return Err(());
    }
    if month == 2 {
        if (year % 4 == 0 && year % 100 != 0) || year % 400 == 0 {
            Ok(29)
        } else {
            Ok(28)
        }
    } else if month == 4 || month == 6 || month == 9 || month == 11 {
        Ok(30)
    } else {
        Ok(31)
    }
}

/// The date `delta` months after (`delta` may be negative) the given one,
/// with the day clamped to the last day of the target month; `None` when
/// the target lies outside the supported years.
pub open spec fn shift_months_spec(d: LocalDate, delta: int) -> Option<LocalDate> {
    let total = d.year * 12 + d.month - 1 + delta;
    let y = total / 12;
    let m = total % 12 + 1;
    let last = month_length(y, m);
    if delta == 0 {
        Some(d)
    } else if total < i32::MIN || total > i32::MAX || y < MIN_YEAR || y > MAX_YEAR {
        None
    } else {
        Some(
            LocalDate {
                year: y as i32,
                month: m as u32,
                day: (if d.day <= last {
                    d.day as int
                } else {
                    last
                }) as u32,
            },
        )
    }
}

/// What `NaiveDate::checked_add_months` (`forward`) or `checked_sub_months`
/// gives for `months` months.
pub open spec fn add_months_spec(d: LocalDate, months: u32, forward: bool) -> Option<LocalDate> {
    if months == 0 {
        Some(d)
    } else if months > i32::MAX {
        None
    } else if forward {
        shift_months_spec(d, months as int)
    } else {
        shift_months_spec(d, -(months as int))
    }
}

proof fn lemma_euclid_unique(total: int, y: int, r: int)
    requires
        total == 12 * y + r,
        0 <= r < 12,
    ensures
        y == total / 12,
        r == total % 12,
{
    lemma_fundamental_div_mod(total, 12);
    let q = total / 12;
    let s = total % 12;
    assert(0 <= s < 12);
    assert(12 * (y - q) == s - r);
}

/// Adds (or, with `forward == false`, subtracts) whole months, clamping the
/// day to the end of a shorter month.
#[verifier::spinoff_prover]
#[verifier::rlimit(40)]
pub fn add_months(d: LocalDate, months: u32, forward: bool) -> (r: Option<LocalDate>)
    requires
        supported_date(d),
    ensures
        r == add_months_spec(d, months, forward),
        r matches Some(x) ==> supported_date(x),
{
    if months == 0 {
        return Some(d);
    }
    if months > 2147483647 {
        return None;
    }
    let delta: i64 = if forward {
        months as i64
    } else {
        -(months as i64)
    };
    let total: i64 = (d.year as i64) * 12 + (d.month as i64) - 1 + delta;
    if total < -2147483648 || total > 2147483647 {
        return None;
    }
    let shifted: i64 = total + 3221225472;
    let q: i64 = shifted / 12;
    let rem: i64 = shifted % 12;
    let y: i64 = q - 268435456;
    let m: i64 = rem + 1;
    proof {
        lemma_fundamental_div_mod(shifted as int, 12);
        lemma_euclid_unique(total as int, y as int, rem as int);
    }
    if y < MIN_YEAR as i64 || y > MAX_YEAR as i64 {
        return None;
    }
    let year = y as i32;
    let month = m as u32;
    let last: u32 = if month == 2 {
        if (year % 4 == 0 && year % 100 != 0) || year % 400 == 0 {
            29
        } else {
            28
        }
    } else if month == 4 || month == 6 || month == 9 || month == 11 {
        30
    } else {
        31
    };
    let day = if d.day <= last {
        d.day
    } else {
        last
    };
    Some(LocalDate { year, month, day })
}

// ---------------------------------------------------------------------------
// Calendar answers taken from the date library
// ---------------------------------------------------------------------------
/// The date `days` days after (or before, for negative `days`) the given
/// date, as `NaiveDate::checked_add_signed` computes it.
pub uninterp spec fn chrono_add_days(y: i32, m: u32, d: u32, days: i64) -> Option<(i32, u32, u32)>;

/// The ISO weekday number (Monday = 1 … Sunday = 7) of a date, as
/// `Weekday::number_from_monday` gives it: 1970-01-01, day 0 of the day
/// count, was a Thursday.
pub open spec fn chrono_weekday(y: i32, m: u32, d: u32) -> u32 {
    ((day_number(LocalDate { year: y, month: m, day: d }) + 3) % 7 + 1) as u32
}

/// Adds whole days to a date (`NaiveDate::checked_add_signed` with
/// `Duration::days`): the result is `days` days on in the day count.  It is
/// `None` exactly when no supported date lies there (chrono's own year
/// range is the supported one); a `Some` date is always a supported date.
#[verifier::external_body]
pub(crate) fn date_add_days(d: LocalDate, days: i64) -> (r: Option<LocalDate>)
    requires
        supported_date(d),
        -100_000_000_000 <= days <= 100_000_000_000,
    ensures
        match r {
            Some(x) => chrono_add_days(d.year, d.month, d.day, days) == Some(date_tuple(x))
                && supported_date(x) && day_number(x) == day_number(d) + days && (-365 <= days <= 365 ==> d.year - 1 <= x.year <= d.year
                + 1),
            None => chrono_add_days(d.year, d.month, d.day, days) is None && forall|x: LocalDate|
                supported_date(x) ==> #[trigger] day_number(x) != day_number(d) + days,
        },
{
    NaiveDate::from_ymd_opt(d.year, d.month, d.day)
        .unwrap()
        .checked_add_signed(chrono::Duration::days(days))
        .map(|x| LocalDate { year: x.year(), month: x.month(), day: x.day() })
}

/// The ISO weekday number of a date (`Weekday::number_from_monday`): 1 for
/// Monday through 7 for Sunday.
#[verifier::external_body]
pub(crate) fn weekday_number(d: LocalDate) -> (r: u32)
    requires
        supported_date(d),
    ensures
        r == chrono_weekday(d.year, d.month, d.day),
        1 <= r <= 7,
{
    NaiveDate::from_ymd_opt(d.year, d.month, d.day).unwrap().weekday().number_from_monday()
}

// ---------------------------------------------------------------------------
// Text forms
// ---------------------------------------------------------------------------
/// What `NaiveTime::parse_from_str(s, "%H:%M")` yields, as seconds since
/// midnight.
pub uninterp spec fn chrono_parse_hm(s: Seq<char>) -> Option<u32>;

/// What `NaiveDate::parse_from_str(s, "%Y-%m-%d")` yields.
pub uninterp spec fn chrono_parse_ymd(s: Seq<char>) -> Option<(i32, u32, u32)>;

/// A text of digits zero-padded on the left to four characters.
pub open spec fn zero_pad4(s: Seq<char>) -> Seq<char> {
    if s.len() >= 4 {
        s
    } else {
        Seq::new((4 - s.len()) as nat, |i: int| '0') + s
    }
}

/// A year as `%Y` writes it: four digits at least, zero-padded, with a sign
/// for years outside 0–9999.
pub open spec fn year_text(y: int) -> Seq<char> {
    if 0 <= y <= 9999 {
        zero_pad4(crate::text::decimal_seq(y as nat))
    } else if y < 0 {
        seq!['-'] + zero_pad4(crate::text::decimal_seq((-y) as nat))
    } else {
        seq!['+'] + zero_pad4(crate::text::decimal_seq(y as nat))
    }
}

/// What `NaiveDate::format("%Y-%m-%d")` writes for a date.
pub open spec fn chrono_format_ymd(y: i32, m: u32, d: u32) -> Seq<char> {
    year_text(y as int) + seq!['-'] + two_digits(m as int) + seq!['-'] + two_digits(d as int)
}

/// The instant that `DateTime::parse_from_rfc3339` reads from a text: whole
/// seconds since the epoch (rounded down) and the nanoseconds past them.
pub uninterp spec fn chrono_rfc3339_instant(s: Seq<char>) -> Option<(i64, u32)>;

/// The instant a text reads as, in whole seconds (a fraction is dropped).
pub open spec fn chrono_rfc3339_seconds(s: Seq<char>) -> Option<i64> {
    match chrono_rfc3339_instant(s) {
        Some((secs, _)) => Some(secs),
        None => None,
    }
}

/// What `DateTime::<Utc>::to_rfc3339` writes for an instant.
pub uninterp spec fn chrono_rfc3339_text(secs: i64) -> Seq<char>;

/// Reads an `HH:MM` time of day (`NaiveTime::parse_from_str` with `%H:%M`),
/// giving seconds since midnight; such a time always has zero seconds.
#[verifier::external_body]
pub(crate) fn parse_hm(value: &str) -> (r: Option<u32>)
    ensures
        r == chrono_parse_hm(value@),
        r matches Some(t) ==> t < DAY_SECONDS && t % 60 == 0,
{
    chrono::NaiveTime::parse_from_str(value, "%H:%M").ok().map(|t| t.num_seconds_from_midnight())
}

/// Reads a `YYYY-MM-DD` date (`NaiveDate::parse_from_str` with `%Y-%m-%d`);
/// a parsed date is always a supported date.
#[verifier::external_body]
pub(crate) fn parse_ymd(value: &str) -> (r: Option<LocalDate>)
    ensures
        match r {
            Some(x) => chrono_parse_ymd(value@) == Some(date_tuple(x)) && supported_date(x),
            None => chrono_parse_ymd(value@) is None,
        },
{
    NaiveDate::parse_from_str(value, "%Y-%m-%d").ok().map(
        |x| LocalDate { year: x.year(), month: x.month(), day: x.day() },
    )
}

fn zero_padded(digits: &Vec<char>) -> (r: Vec<char>)
    ensures
        r@ == zero_pad4(digits@),
{
    let mut out: Vec<char> = Vec::new();
    let mut k: usize = digits.len();
    while k < 4
        invariant
            digits@.len() <= k,
            k <= 4 || k == digits@.len(),
            out@ == Seq::new((k - digits@.len()) as nat, |i: int| '0'),
        decreases 4 - k,
    {
        out.push('0');
        assert(out@ =~= Seq::new((k + 1 - digits@.len()) as nat, |i: int| '0'));
        k = k + 1;
    }
    let ghost zeros = out@;
    assert(digits@.len() < 4 ==> zeros =~= Seq::new((4 - digits@.len()) as nat, |i: int| '0'));
    assert(digits@.len() >= 4 ==> zeros =~= Seq::<char>::empty());
    let mut j: usize = 0;
    while j < digits.len()
        invariant
            j <= digits@.len(),
            out@ == zeros + digits@.subrange(0, j as int),
        decreases digits@.len() - j,
    {
        out.push(digits[j]);
        assert(out@ =~= zeros + digits@.subrange(0, j as int + 1));
        j = j + 1;
    }
    assert(digits@.subrange(0, digits@.len() as int) =~= digits@);
    assert(out@ =~= zero_pad4(digits@));
    out
}

fn year_chars(y: i32) -> (r: Vec<char>)
    ensures
        r@ == year_text(y as int),
{
    let negative = y < 0;
    let magnitude: u64 = if negative {
        (-(y as i64)) as u64
    } else {
        y as u64
    };
    let digits = crate::text::chars_of(crate::text::u64_to_string(magnitude).as_str());
    let padded = zero_padded(&digits);
    let mut out: Vec<char> = Vec::new();
    if negative {
        out.push('-');
    } else if y > 9999 {
        out.push('+');
    }
    let mut tail = padded;
    out.append(&mut tail);
    assert(out@ =~= year_text(y as int));
    out
}

/// Writes a date as `NaiveDate::format("%Y-%m-%d")` does: the year with at
/// least four digits (signed outside 0–9999), then the two-digit month and
/// day.
pub fn format_ymd(d: LocalDate) -> (r: String)
    requires
        supported_date(d),
    ensures
        r@ == chrono_format_ymd(d.year, d.month, d.day),
{
    let mut out = year_chars(d.year);
    let ghost year = out@;
    out.push('-');
    out.push(digit_of(d.month / 10));
    out.push(digit_of(d.month % 10));
    out.push('-');
    out.push(digit_of(d.day / 10));
    out.push(digit_of(d.day % 10));
    assert(out@ =~= year + seq!['-'] + two_digits(d.month as int) + seq!['-'] + two_digits(d.day as int));
    crate::text::string_from_chars(&out)
}

/// Reads an RFC 3339 timestamp (`DateTime::parse_from_rfc3339`), giving the
/// instant as whole seconds and the nanoseconds past them (a leap second is
/// read as the 59th second plus a second's worth of nanoseconds, so they stay
/// below two seconds); a parsed instant always lies in the years 0000–9999,
/// give or take a day of offset.
#[verifier::external_body]
pub(crate) fn parse_rfc3339_instant(value: &str) -> (r: Option<(i64, u32)>)
    ensures
        r == chrono_rfc3339_instant(value@),
        r matches Some((s, n)) ==> rfc3339_range(s as int) && n < 2_000_000_000,
{
    match chrono::DateTime::parse_from_rfc3339(value) {
        Ok(x) => Some((x.timestamp(), x.timestamp_subsec_nanos())),
        Err(_) => None,
    }
}

/// Reads an RFC 3339 timestamp, giving the instant in whole seconds (a
/// fraction of a second is dropped).
pub fn parse_rfc3339(value: &str) -> (r: Option<i64>)
    ensures
        r == chrono_rfc3339_seconds(value@),
        r matches Some(s) ==> rfc3339_range(s as int),
{
    match parse_rfc3339_instant(value) {
        Some((s, _)) => Some(s),
        None => None,
    }
}

/// Writes an instant in RFC 3339 form (`DateTime::<Utc>::to_rfc3339`).
#[verifier::external_body]
pub(crate) fn format_rfc3339(secs: i64) -> (r: String)
    requires
        timestamp_in_range(secs as int),
    ensures
        r@ == chrono_rfc3339_text(secs),
{
    chrono::DateTime::from_timestamp(secs, 0).unwrap().to_rfc3339()
}

/// Two decimal digits of `n < 100`.
pub open spec fn two_digits(n: int) -> Seq<char> {
    seq![(('0' as int) + n / 10) as char, (('0' as int) + n % 10) as char]
}

/// `HH:MM` text of a time of day given in seconds since midnight
/// (`NaiveTime::format("%H:%M")`).
pub open spec fn hm_text(seconds: int) -> Seq<char> {
    two_digits(seconds / 3600) + seq![':'] + two_digits((seconds / 60) % 60)
}

fn digit_of(n: u32) -> (c: char)
    requires
        n < 10,
    ensures
        c == (('0' as int) + n) as char,
{
    match n {
        0 => '0',
        1 => '1',
        2 => '2',
        3 => '3',
        4 => '4',
        5 => '5',
        6 => '6',
        7 => '7',
        8 => '8',
        _ => '9',
    }
}

/// Writes a time of day as `HH:MM`.
pub fn format_hm(seconds: u32) -> (r: String)
    requires
        seconds < DAY_SECONDS,
    ensures
        r@ == hm_text(seconds as int),
{
    let hours = seconds / 3600;
    let minutes = (seconds / 60) % 60;
    let mut out = String::new();
    push_char(&mut out, digit_of(hours / 10));
    push_char(&mut out, digit_of(hours % 10));
    push_char(&mut out, ':');
    push_char(&mut out, digit_of(minutes / 10));
    push_char(&mut out, digit_of(minutes % 10));
    assert(out@ =~= hm_text(seconds as int));
    out
}

// ---------------------------------------------------------------------------
// The machine's time zone
// ---------------------------------------------------------------------------
/// The local wall-clock moment of an instant in the machine's time zone
/// (`DateTime::with_timezone(&Local)`).  The answer depends on the time zone
/// the machine is set to; what is promised is its validity and that the
/// wall-clock reading lies within a day of the instant, since chrono's
/// offsets from UTC are less than a day.
#[verifier::external_body]
pub(crate) fn to_local(secs: i64) -> (r: LocalDateTime)
    requires
        instant_ok(secs as int),
    ensures
        supported_local(r),
        within_offset(r, secs as int),
        schedulable(secs as int) ==> deep_date(r.date),
        rfc3339_range(secs as int) ==> -1 <= r.date.year <= 10000,
{
    let local = chrono::DateTime::from_timestamp(secs, 0).unwrap().with_timezone(&Local);
    LocalDateTime {
        date: LocalDate { year: local.year(), month: local.month(), day: local.day() },
        seconds: local.num_seconds_from_midnight(),
    }
}

/// How the machine's time zone maps a local wall-clock moment to instants
/// (`Local.from_local_datetime`).  Which of the three answers comes back
/// depends on the time zone; every instant it gives lies in the supported
/// range and within a day of the wall-clock value; the order of two
/// instants is not stated.
#[verifier::external_body]
pub(crate) fn lookup_local(l: LocalDateTime) -> (r: LocalLookup)
    requires
        supported_local(l),
    ensures
        match r {
            LocalLookup::Single(u) => timestamp_in_range(u as int) && within_offset(l, u as int) && (
            spare_date(l.date) ==> instant_ok(u as int)),
            LocalLookup::Ambiguous(a, b) => timestamp_in_range(a as int) && timestamp_in_range(
                b as int,
            ) && within_offset(l, a as int) && within_offset(l, b as int) && (spare_date(
                l.date,
            ) ==> instant_ok(a as int) && instant_ok(b as int)),
            LocalLookup::Missing => true,
        },
{
    let naive = NaiveDate::from_ymd_opt(l.date.year, l.date.month, l.date.day)
        .unwrap()
        .and_time(chrono::NaiveTime::from_num_seconds_from_midnight_opt(l.seconds, 0).unwrap());
    match Local.from_local_datetime(&naive) {
        LocalResult::Single(x) => LocalLookup::Single(x.timestamp()),
        LocalResult::Ambiguous(a, b) => LocalLookup::Ambiguous(a.timestamp(), b.timestamp()),
        LocalResult::None => LocalLookup::Missing,
    }
}

/// The wall-clock moment `minutes` minutes after `l`, moving to the next day
/// past midnight; `None` when that day lies outside the supported range.
pub fn local_add_minutes(l: LocalDateTime, minutes: u32) -> (r: Option<LocalDateTime>)
    requires
        supported_local(l),
        minutes <= 1440,
    ensures
        match r {
            Some(x) => supported_local(x) && wall_seconds(x) == wall_seconds(l) + minutes * 60
                && l.date.year - 1 <= x.date.year <= l.date.year + 1
                && (if l.seconds + minutes * 60 < 86400 {
                x.date == l.date && x.seconds == l.seconds + minutes * 60
            } else {
                chrono_add_days(l.date.year, l.date.month, l.date.day, 1) == Some(
                    date_tuple(x.date),
                ) && x.seconds == l.seconds + minutes * 60 - 86400
            }),
            None => l.seconds + minutes * 60 >= 86400 && chrono_add_days(
                l.date.year,
                l.date.month,
                l.date.day,
                1,
            ) is None,
        },
{
    let total = l.seconds + minutes * 60;
    if total < DAY_SECONDS {
        Some(LocalDateTime { date: l.date, seconds: total })
    } else {
        match date_add_days(l.date, 1) {
            Some(next) => Some(LocalDateTime { date: next, seconds: total - DAY_SECONDS }),
            None => None,
        }
    }
}

} // verus!
