//! The time canvas: which dates a view covers, how an item's life is laid
//! out as segments of time, which states each segment passes through, and
//! which segments reach the view.  Placing them on the screen (in percent
//! of the view's width) is left to the window.
use vstd::prelude::*;

use crate::clock::{
    add_months, add_months_spec, chrono_rfc3339_instant, date_add_days, days_in_month,
    instant_ok, local_add_minutes, lookup_local, month_length, parse_rfc3339_instant,
    inner_date, rfc3339_range, spare_date, supported_date, supported_local, timestamp_in_range, to_local, valid_date,
    LocalDate, LocalDateTime, LocalLookup, MAX_YEAR, MIN_YEAR,
};
use crate::domain::{instant_ok_exec, is_event_kind, is_event_kind_spec, opt_is, opt_str_is};
use crate::error::{is_validation, validation, AppError, AppResult};
use crate::text::str_eq;

verus! {

/// At most this many entries are sent to the window.
pub const MAX_VISIBLE_ENTRIES: usize = 2_000;

/// At most this many items without a readable time are listed.
pub const MAX_UNSCHEDULED_ITEMS: usize = 200;

/// What a view asks for.
#[derive(Debug, Clone)]
pub struct TimelineQuery {
    pub scale: String,
    pub anchor_date: String,
    pub include_done: bool,
    pub event_kinds: Vec<String>,
    pub category_id: Option<String>,
    pub tag_ids: Vec<String>,
}

/// An item listed beside the canvas because its times cannot be read.
#[derive(Debug, Clone)]
pub struct TimelineUnscheduledItem {
    pub item_id: String,
    pub title: String,
    pub status: String,
    pub event_kind: Option<String>,
    pub reason: String,
}

/// The reason given for such an item, and the complaint about bad times.
pub const INVALID_TIME: &'static str = "时间信息需要核对";

// ---------------------------------------------------------------------------
// Queries and ranges
// ---------------------------------------------------------------------------
/// The four scales: a day, a week, a month or a year.
pub open spec fn is_scale_spec(s: Seq<char>) -> bool {
    s == "DAY"@ || s == "WEEK"@ || s == "MONTH"@ || s == "YEAR"@
}

/// Whether the text names a scale.
pub fn is_scale(s: &str) -> (r: bool)
    ensures
        r == is_scale_spec(s@),
{
    str_eq(s, "DAY") || str_eq(s, "WEEK") || str_eq(s, "MONTH") || str_eq(s, "YEAR")
}

/// A query is refused for an unknown scale, then for an unknown event kind
/// among its filters.
pub fn validate_query(query: &TimelineQuery) -> (r: AppResult<()>)
    ensures
        !is_scale_spec(query.scale@) ==> (r matches Err(e) && is_validation(e, "请选择日、周、月或年视图"@)),
        is_scale_spec(query.scale@) && (exists|i: int|
            0 <= i < query.event_kinds@.len() && !is_event_kind_spec(
                #[trigger] query.event_kinds@[i]@,
            )) ==> (r matches Err(e) && is_validation(e, "时间画布包含无效的事件筛选"@)),
        is_scale_spec(query.scale@) && (forall|i: int|
            0 <= i < query.event_kinds@.len() ==> is_event_kind_spec(
                #[trigger] query.event_kinds@[i]@,
            )) ==> r is Ok,
{
    if !is_scale(query.scale.as_str()) {
        return Err(validation("请选择日、周、月或年视图"));
    }
    let mut i: usize = 0;
    while i < query.event_kinds.len()
        invariant
            is_scale_spec(query.scale@),
            i <= query.event_kinds@.len(),
            forall|j: int| 0 <= j < i ==> is_event_kind_spec(#[trigger] query.event_kinds@[j]@),
        decreases query.event_kinds@.len() - i,
    {
        if !is_event_kind(query.event_kinds[i].as_str()) {
            return Err(validation("时间画布包含无效的事件筛选"));
        }
        i = i + 1;
    }
    Ok(())
}

/// The scale remembered for the canvas must be one of the four.
pub fn validate_saved_scale(scale: &str) -> (r: AppResult<()>)
    ensures
        is_scale_spec(scale@) <==> r is Ok,
        r matches Err(e) ==> is_validation(e, "请选择有效的时间画布范围"@),
{
    if is_scale(scale) {
        Ok(())
    } else {
        Err(validation("请选择有效的时间画布范围"))
    }
}

/// Reads the view's anchor date (`YYYY-MM-DD`).
pub fn parse_anchor(anchor_date: &str) -> (r: AppResult<LocalDate>)
    ensures
        match r {
            Ok(d) => crate::clock::chrono_parse_ymd(anchor_date@) == Some(
                crate::clock::date_tuple(d),
            ) && supported_date(d),
            Err(e) => crate::clock::chrono_parse_ymd(anchor_date@) is None && is_validation(
                e,
                "时间画布的日期无效"@,
            ),
        },
{
    match crate::clock::parse_ymd(anchor_date) {
        Some(d) => Ok(d),
        None => Err(validation("时间画布的日期无效")),
    }
}

/// The year lies in the supported calendar.
pub open spec fn year_supported(year: int) -> bool {
    MIN_YEAR <= year <= MAX_YEAR
}

/// The last day of a month: refused for a month that does not exist, and
/// for the last month of the calendar (whose successor does not).
pub fn last_day_of_month(year: i32, month: u32) -> (r: AppResult<LocalDate>)
    ensures
        !(1 <= month <= 12 && year_supported(year as int)) ==> (r matches Err(e) && is_validation(
            e,
            "月份无效"@,
        )),
        1 <= month <= 12 && year_supported(year as int) && year == MAX_YEAR && month == 12 ==> (r matches Err(
            e,
        ) && is_validation(e, "月份超出可用范围"@)),
        1 <= month <= 12 && year_supported(year as int) && !(year == MAX_YEAR && month == 12) ==> r
            == Ok::<LocalDate, AppError>(
            LocalDate { year, month, day: month_length(year as int, month as int) as u32 },
        ),
        r matches Ok(d) ==> supported_date(d),
{
    if month < 1 || month > 12 || year < MIN_YEAR || year > MAX_YEAR {
        return Err(validation("月份无效"));
    }
    match days_in_month(year, month) {
        Ok(n) => Ok(LocalDate { year, month, day: n }),
        Err(_) => Err(validation("月份超出可用范围")),
    }
}

/// The date with the given day of the month, or the month's last day when
/// the month is shorter; the month's last day must exist either way.
pub fn date_with_clamped_day(year: i32, month: u32, day: u32) -> (r: AppResult<LocalDate>)
    ensures
        !(1 <= month <= 12 && year_supported(year as int)) ==> (r matches Err(e) && is_validation(
            e,
            "月份无效"@,
        )),
        1 <= month <= 12 && year_supported(year as int) && year == MAX_YEAR && month == 12 ==> (r matches Err(
            e,
        ) && is_validation(e, "月份超出可用范围"@)),
        1 <= month <= 12 && year_supported(year as int) && !(year == MAX_YEAR && month == 12) ==> r
            == Ok::<LocalDate, AppError>(
            LocalDate {
                year,
                month,
                day: if 1 <= day <= month_length(year as int, month as int) {
                    day
                } else {
                    month_length(year as int, month as int) as u32
                },
            },
        ),
        r matches Ok(d) ==> supported_date(d),
{
    let last = last_day_of_month(year, month)?;
    if 1 <= day && day <= last.day {
        Ok(LocalDate { year, month, day })
    } else {
        Ok(last)
    }
}

/// The first and last date a view covers around its anchor: the day
/// itself; the Monday-to-Sunday week; the calendar month; the calendar
/// year.  An unknown scale is refused, and so is a week or month that runs
/// off the end of the calendar.
pub fn visible_range(scale: &str, anchor: LocalDate) -> (r: AppResult<(LocalDate, LocalDate)>)
    requires
        supported_date(anchor),
    ensures
        scale@ == "DAY"@ ==> r == Ok::<(LocalDate, LocalDate), AppError>((anchor, anchor)),
        scale@ == "WEEK"@ ==> match r {
            Ok((start, end)) => crate::clock::chrono_add_days(
                anchor.year,
                anchor.month,
                anchor.day,
                -(crate::clock::chrono_weekday(anchor.year, anchor.month, anchor.day) - 1) as i64,
            ) == Some(crate::clock::date_tuple(start)) && crate::clock::chrono_add_days(
                start.year,
                start.month,
                start.day,
                6,
            ) == Some(crate::clock::date_tuple(end)),
            Err(e) => is_validation(e, "时间画布范围无效"@),
        },
        scale@ == "MONTH"@ && !(anchor.year == MAX_YEAR && anchor.month == 12) ==> r == Ok::<
            (LocalDate, LocalDate),
            AppError,
        >(
            (
                LocalDate { year: anchor.year, month: anchor.month, day: 1 },
                LocalDate {
                    year: anchor.year,
                    month: anchor.month,
                    day: month_length(anchor.year as int, anchor.month as int) as u32,
                },
            ),
        ),
        scale@ == "YEAR"@ ==> r == Ok::<(LocalDate, LocalDate), AppError>(
            (
                LocalDate { year: anchor.year, month: 1, day: 1 },
                LocalDate { year: anchor.year, month: 12, day: 31 },
            ),
        ),
        !is_scale_spec(scale@) ==> (r matches Err(e) && is_validation(e, "时间画布范围无效"@)),
        r matches Ok((a, b)) ==> supported_date(a) && supported_date(b),
{
    proof {
        reveal_strlit("DAY");
        reveal_strlit("WEEK");
        reveal_strlit("MONTH");
        reveal_strlit("YEAR");
        assert("WEEK"@[0] != "YEAR"@[0]);
        assert("DAY"@.len() == 3 && "WEEK"@.len() == 4 && "MONTH"@.len() == 5 && "YEAR"@.len() == 4);
        assert("MONTH"@ != "DAY"@ && "MONTH"@ != "WEEK"@ && "YEAR"@ != "DAY"@ && "YEAR"@ != "MONTH"@
            && "WEEK"@ != "DAY"@);
    }
    if str_eq(scale, "DAY") {
        Ok((anchor, anchor))
    } else if str_eq(scale, "WEEK") {
        let offset = weekday_offset(anchor);
        match date_add_days(anchor, -offset) {
            Some(start) => match date_add_days(start, 6) {
                Some(end) => Ok((start, end)),
                None => Err(validation("时间画布范围无效")),
            },
            None => Err(validation("时间画布范围无效")),
        }
    } else if str_eq(scale, "MONTH") {
        let start = LocalDate { year: anchor.year, month: anchor.month, day: 1 };
        let end = last_day_of_month(anchor.year, anchor.month)?;
        Ok((start, end))
    } else if str_eq(scale, "YEAR") {
        Ok(
            (
                LocalDate { year: anchor.year, month: 1, day: 1 },
                LocalDate { year: anchor.year, month: 12, day: 31 },
            ),
        )
    } else {
        Err(validation("时间画布范围无效"))
    }
}

/// Days since the last Monday.
fn weekday_offset(d: LocalDate) -> (r: i64)
    requires
        supported_date(d),
    ensures
        r == crate::clock::chrono_weekday(d.year, d.month, d.day) - 1,
        0 <= r <= 6,
{
    let n = crate::clock::weekday_number(d);
    (n - 1) as i64
}

// ---------------------------------------------------------------------------
// Instants
// ---------------------------------------------------------------------------
/// An instant: whole seconds since the epoch and the nanoseconds past them.
#[derive(Debug, Clone, Copy, PartialEq, Eq, Structural)]
pub struct Instant {
    pub secs: i64,
    pub nanos: u32,
}

/// A key that orders instants as the date library orders them: by whole
/// second, then by the nanoseconds past it (more than a second's worth only
/// inside a leap second, which the library reads as the 59th second plus a
/// second's nanoseconds).
pub open spec fn at(i: Instant) -> int {
    i.secs * 2_000_000_000 + i.nanos
}

/// An instant as a stored time can name one: in the years 0000–9999 and
/// with fewer than two seconds' nanoseconds.
pub open spec fn readable(i: Instant) -> bool {
    rfc3339_range(i.secs as int) && i.nanos < 2_000_000_000
}

/// The instant a stored text names, if it names one.
pub open spec fn instant_of(s: Seq<char>) -> Option<Instant> {
    match chrono_rfc3339_instant(s) {
        Some((secs, nanos)) => Some(Instant { secs, nanos }),
        None => None,
    }
}

/// The ordering key of an instant.
pub fn order_key(i: Instant) -> (r: i128)
    ensures
        r == at(i),
{
    (i.secs as i128) * 2_000_000_000 + (i.nanos as i128)
}

/// Whether `a` comes before `b`.
pub fn earlier(a: Instant, b: Instant) -> (r: bool)
    ensures
        r == (at(a) < at(b)),
{
    order_key(a) < order_key(b)
}

/// The later of two instants.
pub open spec fn latest(a: Instant, b: Instant) -> Instant {
    if at(a) < at(b) {
        b
    } else {
        a
    }
}

/// The earlier of two instants.
pub open spec fn soonest(a: Instant, b: Instant) -> Instant {
    if at(b) < at(a) {
        b
    } else {
        a
    }
}

/// `v` held between `lo` and `hi`.
pub open spec fn clamp_spec(v: Instant, lo: Instant, hi: Instant) -> Instant {
    if at(v) < at(lo) {
        lo
    } else if at(hi) < at(v) {
        hi
    } else {
        v
    }
}

fn later_of(a: Instant, b: Instant) -> (r: Instant)
    ensures
        r == latest(a, b),
{
    if earlier(a, b) {
        b
    } else {
        a
    }
}

fn sooner_of(a: Instant, b: Instant) -> (r: Instant)
    ensures
        r == soonest(a, b),
{
    if earlier(b, a) {
        b
    } else {
        a
    }
}

fn clamp(v: Instant, lo: Instant, hi: Instant) -> (r: Instant)
    ensures
        r == clamp_spec(v, lo, hi),
{
    if earlier(v, lo) {
        lo
    } else if earlier(hi, v) {
        hi
    } else {
        v
    }
}

/// Reads a stored time; an unreadable one is the "times need checking"
/// complaint.
pub fn read_instant(value: &str) -> (r: AppResult<Instant>)
    ensures
        match instant_of(value@) {
            Some(i) => r == Ok::<Instant, AppError>(i) && readable(i),
            None => r matches Err(e) && is_validation(e, INVALID_TIME@),
        },
{
    match parse_rfc3339_instant(value) {
        Some((secs, nanos)) => Ok(Instant { secs, nanos }),
        None => Err(validation(INVALID_TIME)),
    }
}

/// Reads an optional stored time.
pub fn read_optional_instant(value: &Option<String>) -> (r: AppResult<Option<Instant>>)
    ensures
        match value {
            None => r == Ok::<Option<Instant>, AppError>(None),
            Some(v) => match instant_of(v@) {
                Some(i) => r == Ok::<Option<Instant>, AppError>(Some(i)) && readable(i),
                None => r matches Err(e) && is_validation(e, INVALID_TIME@),
            },
        },
{
    match value {
        None => Ok(None),
        Some(v) => {
            let i = read_instant(v.as_str())?;
            Ok(Some(i))
        },
    }
}

/// The first instant the zone lists (chrono's `earliest`) for the local moment `l`; a skipped moment
/// moves forward minute by minute, up to three hours, to the first moment
/// that exists (and its first instant).
pub fn resolve_earliest(l: LocalDateTime) -> (r: AppResult<i64>)
    requires
        supported_local(l),
    ensures
        match r {
            Ok(u) => timestamp_in_range(u as int) && (inner_date(l.date) ==> instant_ok(u as int))
                && crate::clock::resolves_near(l, u as int),
            Err(e) => is_validation(e, INVALID_TIME@),
        },
{
    let mut minutes: u32 = 0;
    while minutes <= 180
        invariant
            minutes <= 181,
            supported_local(l),
        decreases 181 - minutes,
    {
        match local_add_minutes(l, minutes) {
            Some(adjusted) => match lookup_local(adjusted) {
                LocalLookup::Single(u) => {
                    assert(inner_date(l.date) ==> spare_date(adjusted.date));
                    return Ok(u);
                },
                LocalLookup::Ambiguous(earliest, _) => {
                    assert(inner_date(l.date) ==> spare_date(adjusted.date));
                    return Ok(earliest);
                },
                LocalLookup::Missing => {},
            },
            None => {},
        }
        minutes = minutes + 1;
    }
    Err(validation(INVALID_TIME))
}

// ---------------------------------------------------------------------------
// An item's life
// ---------------------------------------------------------------------------
/// What the canvas reads of an item.
#[derive(Debug, Clone)]
pub struct TimelineSourceItem {
    pub id: String,
    pub title: String,
    pub status: String,
    pub category_name: Option<String>,
    pub created_at: String,
    pub completed_at: Option<String>,
    pub due_at: Option<String>,
    pub event_kind: Option<String>,
    pub start_at: Option<String>,
    pub end_at: Option<String>,
    pub target_at: Option<String>,
    pub lead_value: Option<u32>,
    pub lead_unit: Option<String>,
    pub important: bool,
    pub tag_names: Vec<String>,
    pub anchor_day: Option<u32>,
    pub anchor_month: Option<u32>,
}

/// The stored time at which an item's life is planned to end: the end of a
/// continuous event, the target of a warning, the due time of the rest.
pub open spec fn end_value_spec(item: TimelineSourceItem) -> Option<String> {
    if opt_is(item.event_kind, "CONTINUOUS"@) {
        item.end_at
    } else if opt_is(item.event_kind, "WARNING"@) {
        item.target_at
    } else {
        item.due_at
    }
}

/// An item's life in instants.
#[derive(Debug, Clone, Copy)]
pub struct Lifecycle {
    pub created: Instant,
    pub completed: Option<Instant>,
    /// The planned end: the stored end when there is one, else the
    /// completion, else now.
    pub planned_end: Instant,
    /// The item has a stored end.
    pub has_end: bool,
}

/// The life of an item, or `None` when a time cannot be read or the item
/// would end (or be completed) before it was created.
pub open spec fn lifecycle_spec(item: TimelineSourceItem, now: Instant) -> Option<Lifecycle> {
    match instant_of(item.created_at@) {
        None => None,
        Some(created) => {
            let completed: Option<Option<Instant>> = match item.completed_at {
                None => Some(None),
                Some(t) => match instant_of(t@) {
                    None => None,
                    Some(c) => Some(Some(c)),
                },
            };
            match completed {
                None => None,
                Some(completed) => if completed matches Some(c) && at(c) < at(created) {
                    None
                } else {
                    let planned: Option<(Instant, bool)> = match end_value_spec(item) {
                        Some(t) => match instant_of(t@) {
                            None => None,
                            Some(e) => Some((e, true)),
                        },
                        None => match completed {
                            Some(c) => Some((c, false)),
                            None => Some((now, false)),
                        },
                    };
                    match planned {
                        None => None,
                        Some((end, has_end)) => if at(end) < at(created) {
                            None
                        } else {
                            Some(Lifecycle { created, completed, planned_end: end, has_end })
                        },
                    }
                },
            }
        },
    }
}

/// `i` is the instant the stored text `t` names.
pub open spec fn names_instant(t: Option<String>, i: Instant) -> bool {
    t matches Some(x) && chrono_rfc3339_instant(x@) == Some((i.secs, i.nanos))
}

/// What a life ends at: a continuous event at its stored end, a warning at
/// its target, any other item at its due time; when that time is not stored
/// the life has no stored end and runs to its completion, or to now.
pub open spec fn planned_end_law(item: TimelineSourceItem, now: Instant, l: Lifecycle) -> bool {
    let stored = if opt_is(item.event_kind, "CONTINUOUS"@) {
        item.end_at
    } else if opt_is(item.event_kind, "WARNING"@) {
        item.target_at
    } else {
        item.due_at
    };
    &&& (opt_is(item.event_kind, "CONTINUOUS"@) ==> (item.end_at is Some <==> l.has_end))
    &&& (stored is Some ==> l.has_end && names_instant(stored, l.planned_end))
    &&& (stored is None ==> !l.has_end && l.planned_end == (match l.completed {
        Some(c) => c,
        None => now,
    }))
    &&& names_instant(Some(item.created_at), l.created)
}

/// A life ends where the item's kind says: the end of a continuous event
/// (not its due or start time), the target of a warning, the due time of
/// the rest.
pub proof fn lemma_planned_end(item: TimelineSourceItem, now: Instant)
    ensures
        lifecycle_spec(item, now) matches Some(l) ==> planned_end_law(item, now, l),
{
}

/// The instants of a lifecycle can all be read.
pub open spec fn lifecycle_readable(l: Lifecycle) -> bool {
    readable(l.created) && readable(l.planned_end) && (l.completed matches Some(c) ==> readable(c))
        && at(l.created) <= at(l.planned_end)
}

/// Reads an item's life at `now`.
pub fn lifecycle(item: &TimelineSourceItem, now: Instant) -> (r: AppResult<Lifecycle>)
    requires
        readable(now),
    ensures
        match lifecycle_spec(*item, now) {
            Some(l) => r matches Ok(x) && x.created == l.created && x.completed == l.completed
                && x.planned_end == l.planned_end && x.has_end == l.has_end,
            None => r matches Err(e) && is_validation(e, INVALID_TIME@),
        },
        r matches Ok(x) ==> lifecycle_readable(x),
        r matches Ok(x) ==> planned_end_law(*item, now, x),
{
    proof {
        lemma_planned_end(*item, now);
    }
    let created = read_instant(item.created_at.as_str())?;
    let completed = read_optional_instant(&item.completed_at)?;
    if let Some(c) = completed {
        if earlier(c, created) {
            return Err(validation(INVALID_TIME));
        }
    }
    let end_value = if opt_str_is(&item.event_kind, "CONTINUOUS") {
        &item.end_at
    } else if opt_str_is(&item.event_kind, "WARNING") {
        &item.target_at
    } else {
        &item.due_at
    };
    let (planned_end, has_end) = match end_value {
        Some(t) => (read_instant(t.as_str())?, true),
        None => match completed {
            Some(c) => (c, false),
            None => (now, false),
        },
    };
    if earlier(planned_end, created) {
        return Err(validation(INVALID_TIME));
    }
    Ok(Lifecycle { created, completed, planned_end, has_end })
}

/// The item is a monthly or yearly series with a stored end, whose cycles
/// are laid out one by one.
pub open spec fn is_periodic(item: TimelineSourceItem, l: Lifecycle) -> bool {
    (opt_is(item.event_kind, "MONTHLY"@) || opt_is(item.event_kind, "YEARLY"@)) && l.has_end
}

/// Whether the item's cycles are laid out one by one.
pub fn periodic(item: &TimelineSourceItem, l: &Lifecycle) -> (r: bool)
    ensures
        r == is_periodic(*item, *l),
{
    (opt_str_is(&item.event_kind, "MONTHLY") || opt_str_is(&item.event_kind, "YEARLY")) && l.has_end
}

/// The local wall-clock moment an instant shows.
pub fn local_of(i: Instant) -> (r: LocalDateTime)
    requires
        readable(i),
    ensures
        supported_local(r),
        -1 <= r.date.year <= 10000,
        crate::clock::within_offset(r, i.secs as int),
{
    to_local(i.secs)
}

/// The warning's lead, counted back from its target in local calendar
/// terms: the moment of the same local time of day `amount` days, weeks,
/// months or years earlier (a shorter month keeps its last day).  `None`
/// for an unknown unit; the moment is resolved to the first instant listed
/// showing it.
pub fn lead_start(target: Instant, amount: u32, unit: &str) -> (r: AppResult<Instant>)
    requires
        readable(target),
        amount > 0,
    ensures
        r matches Ok(x) ==> x.nanos == target.nanos && timestamp_in_range(x.secs as int),
        !(unit@ == "DAY"@ || unit@ == "WEEK"@ || unit@ == "MONTH"@ || unit@ == "YEAR"@) ==> (r matches Err(
            e,
        ) && is_validation(e, INVALID_TIME@)),
{
    let local = local_of(target);
    let shifted = if str_eq(unit, "DAY") {
        date_add_days(local.date, -(amount as i64))
    } else if str_eq(unit, "WEEK") {
        date_add_days(local.date, -(amount as i64) * 7)
    } else if str_eq(unit, "MONTH") {
        add_months(local.date, amount, false)
    } else if str_eq(unit, "YEAR") {
        match amount.checked_mul(12) {
            Some(months) => add_months(local.date, months, false),
            None => None,
        }
    } else {
        None
    };
    match shifted {
        None => Err(validation(INVALID_TIME)),
        Some(date) => {
            let secs = resolve_earliest(LocalDateTime { date, seconds: local.seconds })?;
            Ok(Instant { secs, nanos: target.nanos })
        },
    }
}

/// Where the active part of an item begins: the start of a continuous
/// event; for a warning with a lead, the lead counted back from its planned
/// end; otherwise nowhere in particular.
pub fn business_start(item: &TimelineSourceItem, l: &Lifecycle) -> (r: AppResult<Option<Instant>>)
    requires
        lifecycle_readable(*l),
    ensures
        opt_is(item.event_kind, "CONTINUOUS"@) ==> match item.start_at {
            None => r == Ok::<Option<Instant>, AppError>(None),
            Some(v) => match instant_of(v@) {
                Some(i) => r == Ok::<Option<Instant>, AppError>(Some(i)),
                None => r matches Err(e) && is_validation(e, INVALID_TIME@),
            },
        },
        !opt_is(item.event_kind, "CONTINUOUS"@) && opt_is(item.event_kind, "WARNING"@) && !(
        item.lead_value matches Some(a) && a > 0 && item.lead_unit is Some) ==> r == Ok::<Option<Instant>, AppError>(None),
        !opt_is(item.event_kind, "CONTINUOUS"@) && !opt_is(item.event_kind, "WARNING"@) ==> r
            == Ok::<Option<Instant>, AppError>(None),
        r matches Ok(Some(x)) ==> readable(x) || (x.nanos == l.planned_end.nanos
            && timestamp_in_range(x.secs as int)),
{
    if opt_str_is(&item.event_kind, "CONTINUOUS") {
        read_optional_instant(&item.start_at)
    } else if opt_str_is(&item.event_kind, "WARNING") {
        match (item.lead_value, &item.lead_unit) {
            (Some(amount), Some(unit)) => if amount > 0 {
                let start = lead_start(l.planned_end, amount, unit.as_str())?;
                Ok(Some(start))
            } else {
                Ok(None)
            },
            _ => Ok(None),
        }
    } else {
        Ok(None)
    }
}

// ---------------------------------------------------------------------------
// Segments
// ---------------------------------------------------------------------------
/// How a segment is drawn.
#[derive(Debug, Clone, Copy, PartialEq, Eq, Structural)]
pub enum SegmentShape {
    Range,
    Warning,
    Occurrence,
}

/// The caption of a cycle of a series.
#[derive(Debug, Clone, Copy, PartialEq, Eq, Structural)]
pub enum OccurrenceLabel {
    /// Not a cycle.
    NoLabel,
    /// The cycle that ends at the stored end.
    Current,
    /// A planned cycle ending in this local month.
    Planned { year: i32, month: u32 },
}

/// One stretch of an item's life to be drawn.
#[derive(Debug, Clone, Copy)]
pub struct Segment {
    pub start: Instant,
    pub end: Instant,
    pub shape: SegmentShape,
    pub highlight: Option<Instant>,
    pub deadline: Option<Instant>,
    pub business_start: Option<Instant>,
    pub open_ended: bool,
    pub history_incomplete: bool,
    pub occurrence: OccurrenceLabel,
    pub future_preview: bool,
    pub allow_overdue: bool,
}

/// Where a finished item's bar ends: at its completion or its planned end,
/// whichever is later; an open item past its stored end runs on to now.
pub open spec fn display_end_spec(done: bool, l: Lifecycle, now: Instant) -> Instant {
    if done {
        match l.completed {
            Some(c) => latest(c, l.planned_end),
            None => l.planned_end,
        }
    } else if l.has_end && at(l.planned_end) < at(now) {
        now
    } else {
        l.planned_end
    }
}

/// The single segment of an item that is not laid out cycle by cycle; a
/// highlight that would begin after the planned end is refused.
pub fn life_segment(item: &TimelineSourceItem, l: &Lifecycle, now: Instant, start: Option<Instant>) -> (r:
    AppResult<Segment>)
    requires
        lifecycle_readable(*l),
        readable(now),
        start matches Some(s) ==> readable(s),
    ensures
        start matches Some(s) && at(l.planned_end) < at(s) ==> (r matches Err(e) && is_validation(
            e,
            INVALID_TIME@,
        )),
        !(start matches Some(s) && at(l.planned_end) < at(s)) ==> (r matches Ok(seg) && {
            &&& seg.start == l.created
            &&& seg.end == display_end_spec(item.status@ == "DONE"@, *l, now)
            &&& seg.shape == (if opt_is(item.event_kind, "WARNING"@) {
                SegmentShape::Warning
            } else {
                SegmentShape::Range
            })
            &&& seg.highlight == (match start {
                Some(s) => Some(latest(s, l.created)),
                None => None,
            })
            &&& seg.deadline == (if l.has_end {
                Some(l.planned_end)
            } else {
                None
            })
            &&& seg.business_start == start
            &&& seg.open_ended == (!l.has_end && item.status@ == "OPEN"@)
            &&& !seg.history_incomplete && seg.occurrence == OccurrenceLabel::NoLabel
            &&& !seg.future_preview && seg.allow_overdue
        }),
{
    if let Some(s) = start {
        if earlier(l.planned_end, s) {
            return Err(validation(INVALID_TIME));
        }
    }
    let done = str_eq(item.status.as_str(), "DONE");
    let end = if done {
        match l.completed {
            Some(c) => later_of(c, l.planned_end),
            None => l.planned_end,
        }
    } else if l.has_end && earlier(l.planned_end, now) {
        now
    } else {
        l.planned_end
    };
    let shape = if opt_str_is(&item.event_kind, "WARNING") {
        SegmentShape::Warning
    } else {
        SegmentShape::Range
    };
    let highlight = match start {
        Some(s) => Some(later_of(s, l.created)),
        None => None,
    };
    Ok(
        Segment {
            start: l.created,
            end,
            shape,
            highlight,
            deadline: if l.has_end {
                Some(l.planned_end)
            } else {
                None
            },
            business_start: start,
            open_ended: !l.has_end && str_eq(item.status.as_str(), "OPEN"),
            history_incomplete: false,
            occurrence: OccurrenceLabel::NoLabel,
            future_preview: false,
            allow_overdue: true,
        },
    )
}

// ---------------------------------------------------------------------------
// What reaches the view
// ---------------------------------------------------------------------------
/// A stretch `[from, to]` is drawn in the view `[range_start, range_end)`
/// when it is not reversed and overlaps the view.
pub open spec fn reaches(from: Instant, to: Instant, range_start: Instant, range_end: Instant) -> bool {
    !(at(to) < at(from)) && at(from) < at(range_end) && !(at(to) < at(range_start))
}

/// The segments that reach the view, in order.
pub open spec fn visible_segments(
    segs: Seq<Segment>,
    range_start: Instant,
    range_end: Instant,
) -> Seq<Segment>
    decreases segs.len(),
{
    if segs.len() == 0 {
        Seq::empty()
    } else {
        let rest = visible_segments(segs.drop_last(), range_start, range_end);
        let s = segs.last();
        if reaches(s.start, s.end, range_start, range_end) {
            rest.push(s)
        } else {
            rest
        }
    }
}

/// The segment's ends can be read.
pub open spec fn segment_readable(s: Segment) -> bool {
    readable(s.start) && readable(s.end)
}

/// The segments of an item that reach the view: all are counted, but only
/// the first `limit` are kept to be sent.
pub fn keep_visible(segs: Vec<Segment>, range_start: Instant, range_end: Instant, limit: usize) -> (r:
    (Vec<Segment>, u64))
    requires
        readable(range_start),
        readable(range_end),
        forall|i: int| 0 <= i < segs@.len() ==> segment_readable(#[trigger] segs@[i]),
        segs@.len() < u64::MAX,
    ensures
        r.1 == visible_segments(segs@, range_start, range_end).len(),
        r.0@.len() == if r.1 < limit {
            r.1 as int
        } else {
            limit as int
        },
        r.0@ == visible_segments(segs@, range_start, range_end).take(r.0@.len() as int),
{
    let mut kept: Vec<Segment> = Vec::new();
    let mut total: u64 = 0;
    let mut i: usize = 0;
    while i < segs.len()
        invariant
            i <= segs@.len(),
            segs@.len() < u64::MAX,
            readable(range_start),
            readable(range_end),
            forall|k: int| 0 <= k < segs@.len() ==> segment_readable(#[trigger] segs@[k]),
            total == visible_segments(segs@.take(i as int), range_start, range_end).len(),
            total <= i,
            kept@.len() == if total < limit {
                total as int
            } else {
                limit as int
            },
            kept@ == visible_segments(segs@.take(i as int), range_start, range_end).take(
                kept@.len() as int,
            ),
        decreases segs@.len() - i,
    {
        let s = segs[i];
        proof {
            assert(segs@.take(i as int + 1).drop_last() =~= segs@.take(i as int));
            assert(segs@.take(i as int + 1).last() == s);
        }
        let shows = !earlier(s.end, s.start) && earlier(s.start, range_end) && !earlier(
            s.end,
            range_start,
        );
        if shows {
            let ghost before = visible_segments(segs@.take(i as int), range_start, range_end);
            proof {
                assert(visible_segments(segs@.take(i as int + 1), range_start, range_end) == before.push(s));
            }
            if kept.len() < limit {
                kept.push(s);
                proof {
                    assert(kept@ =~= before.push(s).take(kept@.len() as int));
                }
            } else {
                proof {
                    assert(kept@ =~= before.push(s).take(kept@.len() as int));
                }
            }
            total = total + 1;
        }
        i = i + 1;
    }
    proof {
        assert(segs@.take(segs@.len() as int) =~= segs@);
    }
    (kept, total)
}

// ---------------------------------------------------------------------------
// States along a segment
// ---------------------------------------------------------------------------
/// The state of an item over a stretch of its bar.
#[derive(Debug, Clone, Copy, PartialEq, Eq, Structural)]
pub enum StateKind {
    /// A cycle still to come.
    Future,
    /// Done, but when is not known.
    CompletedUnrecorded,
    /// Recorded, not yet active.
    Recorded,
    Active,
    Overdue,
    Completed,
}

/// The state's code and caption.
pub open spec fn state_names(k: StateKind) -> (Seq<char>, Seq<char>) {
    match k {
        StateKind::Future => ("FUTURE"@, "未来计划"@),
        StateKind::CompletedUnrecorded => ("COMPLETED"@, "已完成（完成时间未记录）"@),
        StateKind::Recorded => ("RECORDED"@, "已记录"@),
        StateKind::Active => ("ACTIVE"@, "进行中"@),
        StateKind::Overdue => ("OVERDUE"@, "已逾期"@),
        StateKind::Completed => ("COMPLETED"@, "已完成"@),
    }
}

/// The state's code and caption.
pub fn state_name(k: StateKind) -> (r: (&'static str, &'static str))
    ensures
        r.0@ == state_names(k).0 && r.1@ == state_names(k).1,
{
    match k {
        StateKind::Future => ("FUTURE", "未来计划"),
        StateKind::CompletedUnrecorded => ("COMPLETED", "已完成（完成时间未记录）"),
        StateKind::Recorded => ("RECORDED", "已记录"),
        StateKind::Active => ("ACTIVE", "进行中"),
        StateKind::Overdue => ("OVERDUE", "已逾期"),
        StateKind::Completed => ("COMPLETED", "已完成"),
    }
}

/// A state over `[from, to]`.
#[derive(Debug, Clone, Copy, PartialEq, Eq, Structural)]
pub struct StateSpan {
    pub kind: StateKind,
    pub from: Instant,
    pub to: Instant,
}

/// Where the states of a segment `[start, end]` would lie, before empty or
/// unseen stretches are dropped: a cycle to come is all future; a finished
/// item without a completion time is all done; otherwise the item is
/// recorded until it becomes active (or is completed), active until its
/// deadline (or completion), overdue from its deadline while that counts,
/// and done from its completion to the end.
pub open spec fn state_candidates(
    done: bool,
    completion: Option<Instant>,
    start: Instant,
    end: Instant,
    deadline: Option<Instant>,
    business_start: Option<Instant>,
    future_preview: bool,
    allow_overdue: bool,
) -> Seq<StateSpan> {
    if future_preview {
        seq![StateSpan { kind: StateKind::Future, from: start, to: end }]
    } else if done && completion is None {
        seq![StateSpan { kind: StateKind::CompletedUnrecorded, from: start, to: end }]
    } else {
        let active_start = clamp_spec(
            match business_start {
                Some(b) => b,
                None => start,
            },
            start,
            end,
        );
        let completion_value = if done {
            completion
        } else {
            None
        };
        let recorded_end = clamp_spec(
            match completion_value {
                Some(c) => soonest(c, active_start),
                None => active_start,
            },
            start,
            end,
        );
        let active_ceiling = soonest(
            match deadline {
                Some(d) => d,
                None => end,
            },
            end,
        );
        let active_end = clamp_spec(
            match completion_value {
                Some(c) => soonest(c, active_ceiling),
                None => active_ceiling,
            },
            start,
            end,
        );
        let first = seq![
            StateSpan { kind: StateKind::Recorded, from: start, to: recorded_end },
            StateSpan { kind: StateKind::Active, from: soonest(active_start, active_end), to: active_end },
        ];
        let overdue: Seq<StateSpan> = if allow_overdue && deadline is Some {
            let due = deadline->Some_0;
            let overdue_end = if done {
                soonest(
                    match completion_value {
                        Some(c) => c,
                        None => due,
                    },
                    end,
                )
            } else {
                end
            };
            seq![StateSpan { kind: StateKind::Overdue, from: latest(due, start), to: overdue_end }]
        } else {
            Seq::empty()
        };
        let completed: Seq<StateSpan> = match completion_value {
            Some(v) => if at(v) < at(end) {
                seq![StateSpan { kind: StateKind::Completed, from: latest(v, start), to: end }]
            } else {
                Seq::empty()
            },
            None => Seq::empty(),
        };
        first + overdue + completed
    }
}

/// A state is shown when its stretch is not empty and reaches the view.
pub open spec fn shown(s: StateSpan, range_start: Instant, range_end: Instant) -> bool {
    at(s.from) < at(s.to) && reaches(s.from, s.to, range_start, range_end)
}

/// The shown states among the candidates, in order.
pub open spec fn shown_states(c: Seq<StateSpan>, range_start: Instant, range_end: Instant) -> Seq<
    StateSpan,
> {
    c.filter(|s: StateSpan| shown(s, range_start, range_end))
}

fn push_shown(
    states: &mut Vec<StateSpan>,
    s: StateSpan,
    range_start: Instant,
    range_end: Instant,
)
    requires
        readable(s.from),
        readable(s.to),
        readable(range_start),
        readable(range_end),
    ensures
        final(states)@ == if shown(s, range_start, range_end) {
            old(states)@.push(s)
        } else {
            old(states)@
        },
{
    if earlier(s.from, s.to) && earlier(s.from, range_end) && !earlier(s.to, range_start) {
        states.push(s);
    }
}

/// The states along the segment `[start, end]` that the view shows.
pub fn state_spans(
    done: bool,
    completion: Option<Instant>,
    start: Instant,
    end: Instant,
    deadline: Option<Instant>,
    business_start: Option<Instant>,
    future_preview: bool,
    allow_overdue: bool,
    range_start: Instant,
    range_end: Instant,
) -> (r: Vec<StateSpan>)
    requires
        readable(start),
        readable(end),
        at(start) <= at(end),
        completion matches Some(c) ==> readable(c),
        deadline matches Some(d) ==> readable(d),
        business_start matches Some(b) ==> readable(b),
        readable(range_start),
        readable(range_end),
    ensures
        r@ == shown_states(
            state_candidates(
                done,
                completion,
                start,
                end,
                deadline,
                business_start,
                future_preview,
                allow_overdue,
            ),
            range_start,
            range_end,
        ),
{
    let ghost cands = state_candidates(
        done,
        completion,
        start,
        end,
        deadline,
        business_start,
        future_preview,
        allow_overdue,
    );
    let mut states: Vec<StateSpan> = Vec::new();
    if future_preview {
        push_shown(&mut states, StateSpan { kind: StateKind::Future, from: start, to: end }, range_start, range_end);
        proof {
            lemma_filter_one(cands, range_start, range_end);
        }
        return states;
    }
    if done && completion.is_none() {
        push_shown(
            &mut states,
            StateSpan { kind: StateKind::CompletedUnrecorded, from: start, to: end },
            range_start,
            range_end,
        );
        proof {
            lemma_filter_one(cands, range_start, range_end);
        }
        return states;
    }
    let active_start = clamp(
        match business_start {
            Some(b) => b,
            None => start,
        },
        start,
        end,
    );
    let completion_value = if done {
        completion
    } else {
        None
    };
    let recorded_end = clamp(
        match completion_value {
            Some(c) => sooner_of(c, active_start),
            None => active_start,
        },
        start,
        end,
    );
    let active_ceiling = sooner_of(
        match deadline {
            Some(d) => d,
            None => end,
        },
        end,
    );
    let active_end = clamp(
        match completion_value {
            Some(c) => sooner_of(c, active_ceiling),
            None => active_ceiling,
        },
        start,
        end,
    );
    let mut all: Vec<StateSpan> = Vec::new();
    all.push(StateSpan { kind: StateKind::Recorded, from: start, to: recorded_end });
    all.push(StateSpan { kind: StateKind::Active, from: sooner_of(active_start, active_end), to: active_end });
    if allow_overdue {
        if let Some(due) = deadline {
            let overdue_end = if done {
                sooner_of(
                    match completion_value {
                        Some(c) => c,
                        None => due,
                    },
                    end,
                )
            } else {
                end
            };
            all.push(StateSpan { kind: StateKind::Overdue, from: later_of(due, start), to: overdue_end });
        }
    }
    if let Some(v) = completion_value {
        if earlier(v, end) {
            all.push(StateSpan { kind: StateKind::Completed, from: later_of(v, start), to: end });
        }
    }
    proof {
        assert(all@ =~= cands);
    }
    let mut i: usize = 0;
    while i < all.len()
        invariant
            i <= all@.len(),
            all@ == cands,
            readable(range_start),
            readable(range_end),
            forall|k: int| 0 <= k < all@.len() ==> readable(#[trigger] all@[k].from) && readable(
                all@[k].to,
            ),
            states@ == shown_states(all@.take(i as int), range_start, range_end),
        decreases all@.len() - i,
    {
        let s = all[i];
        proof {
            let f = |x: StateSpan| shown(x, range_start, range_end);
            assert(all@.take(i as int + 1) =~= all@.take(i as int).push(s));
            all@.take(i as int).lemma_filter_push(s, f);
        }
        push_shown(&mut states, s, range_start, range_end);
        i = i + 1;
    }
    proof {
        assert(all@.take(all@.len() as int) =~= all@);
    }
    states
}

proof fn lemma_filter_one(c: Seq<StateSpan>, range_start: Instant, range_end: Instant)
    requires
        c.len() == 1,
    ensures
        shown_states(c, range_start, range_end) == (if shown(c[0], range_start, range_end) {
            seq![c[0]]
        } else {
            Seq::<StateSpan>::empty()
        }),
{
    let f = |x: StateSpan| shown(x, range_start, range_end);
    assert(c =~= Seq::<StateSpan>::empty().push(c[0]));
    Seq::<StateSpan>::empty().lemma_filter_push(c[0], f);
    assert(Seq::<StateSpan>::empty().filter(f) =~= Seq::<StateSpan>::empty());
}

// ---------------------------------------------------------------------------
// Cycles of a series
// ---------------------------------------------------------------------------
/// The index of the first planned cycle to lay out: cycles that end well
/// before the view starts are skipped, but never the first one.
pub open spec fn first_index_spec(month_gap: int, step: int) -> int {
    if month_gap >= 0 && month_gap / step - 1 > 1 {
        month_gap / step - 1
    } else {
        1
    }
}

/// The local date of the cycle `index` steps after the month `base`, or
/// the message it is refused with: the month `index * step` months on (a
/// yearly series keeps its anchor month), on the anchor day or the month's
/// last day.  A month count past `u32::MAX` or out of the calendar is an
/// invalid time, and December of the last supported year has no month end.
pub open spec fn occurrence_spec(base: LocalDate, index: u32, step: u32, anchor_month: u32, anchor_day: u32) -> Result<
    LocalDate,
    Seq<char>,
> {
    if index as int * step as int > u32::MAX {
        Err(INVALID_TIME@)
    } else {
        match add_months_spec(base, (index * step) as u32, true) {
            None => Err(INVALID_TIME@),
            Some(b) => {
                let month: u32 = if step == 12 {
                    anchor_month
                } else {
                    b.month
                };
                if b.year == MAX_YEAR && month == 12 {
                    Err("月份超出可用范围"@)
                } else {
                    Ok(
                        LocalDate {
                            year: b.year,
                            month,
                            day: if 1 <= anchor_day <= month_length(b.year as int, month as int) {
                                anchor_day
                            } else {
                                month_length(b.year as int, month as int) as u32
                            },
                        },
                    )
                }
            },
        }
    }
}

/// The local date of the cycle `index` steps after the month `base` (the
/// first of the month of the stored end): a yearly series keeps its month,
/// and the day is the anchor day or the month's last day.
pub fn occurrence_date(base: LocalDate, index: u32, step: u32, anchor_month: u32, anchor_day: u32) -> (r:
    AppResult<LocalDate>)
    requires
        supported_date(base),
        base.day == 1,
        step == 1 || step == 12,
        1 <= anchor_month <= 12,
    ensures
        match occurrence_spec(base, index, step, anchor_month, anchor_day) {
            Ok(d) => r == Ok::<LocalDate, AppError>(d),
            Err(m) => r matches Err(e) && is_validation(e, m),
        },
        r matches Ok(d) ==> supported_date(d),
{
    let months = match index.checked_mul(step) {
        Some(m) => m,
        None => {
            return Err(validation(INVALID_TIME));
        },
    };
    let shifted = match add_months(base, months, true) {
        Some(d) => d,
        None => {
            return Err(validation(INVALID_TIME));
        },
    };
    let month = if step == 12 {
        anchor_month
    } else {
        shifted.month
    };
    let d = date_with_clamped_day(shifted.year, month, anchor_day)?;
    assert(add_months_spec(base, months, true) == Some(shifted));
    Ok(d)
}

/// The instant a cycle of the series ends: its local date at the stored
/// end's time of day, with the stored end's fraction of a second.
fn occurrence_end(
    base: LocalDate,
    index: u32,
    step: u32,
    anchor_month: u32,
    anchor_day: u32,
    time_of_day: u32,
    nanos: u32,
) -> (r: AppResult<Instant>)
    requires
        supported_date(base),
        base.day == 1,
        step == 1 || step == 12,
        1 <= anchor_month <= 12,
        time_of_day < 86400,
    ensures
        r matches Ok(x) ==> x.nanos == nanos && timestamp_in_range(x.secs as int) && (occurrence_spec(
            base,
            index,
            step,
            anchor_month,
            anchor_day,
        ) matches Ok(d) && crate::clock::resolves_near(
            LocalDateTime { date: d, seconds: time_of_day },
            x.secs as int,
        )),
        occurrence_spec(base, index, step, anchor_month, anchor_day) matches Err(m) ==> (r matches Err(
            e,
        ) && is_validation(e, m)),
        occurrence_spec(base, index, step, anchor_month, anchor_day) is Ok ==> (r matches Err(e)
            ==> is_validation(e, INVALID_TIME@)),
{
    let date = occurrence_date(base, index, step, anchor_month, anchor_day)?;
    let secs = resolve_earliest(LocalDateTime { date, seconds: time_of_day })?;
    Ok(Instant { secs, nanos })
}

/// A planned cycle of a series: it moves forward, ends at its deadline, is
/// drawn as a cycle without an overdue state, and is a preview exactly when
/// it starts at or after now.
pub open spec fn planned_cycle(s: Segment, now: Instant) -> bool {
    &&& at(s.start) < at(s.end)
    &&& s.deadline == Some(s.end)
    &&& s.shape == SegmentShape::Occurrence
    &&& !s.allow_overdue
    &&& s.history_incomplete
    &&& s.future_preview == (at(now) <= at(s.start))
    &&& s.occurrence is Planned
}

/// The planned cycles `segs[1..]` end where the series puts them, seen from
/// the local reading `lp` of the stored end: cycle `i` ends near the
/// wall-clock reading of occurrence `first + i - 1` (counted in months, or
/// years in the anchor month, from the month of `lp`, and starting a little
/// before the view's first month) at the time of day of `lp`, with the
/// stored end's fraction of a second.
pub open spec fn cycles_follow_plan(
    item: TimelineSourceItem,
    planned_end: Instant,
    lp: LocalDateTime,
    range_start_date: LocalDate,
    segs: Seq<Segment>,
) -> bool {
    let step: u32 = if opt_is(item.event_kind, "YEARLY"@) {
        12
    } else {
        1
    };
    let ad: u32 = match item.anchor_day {
        Some(d) => d,
        None => lp.date.day,
    };
    let am: u32 = match item.anchor_month {
        Some(m) => m,
        None => lp.date.month,
    };
    let base = LocalDate { year: lp.date.year, month: lp.date.month, day: 1 };
    let gap: int = (range_start_date.year * 12 + range_start_date.month - 1) - (lp.date.year * 12
        + lp.date.month - 1);
    let first: int = first_index_spec(gap, step as int);
    forall|i: int|
        1 <= i < segs.len() ==> (occurrence_spec(base, (first + i - 1) as u32, step, am, ad) matches Ok(
            d,
        ) && crate::clock::resolves_near(
            LocalDateTime { date: d, seconds: lp.seconds },
            (#[trigger] segs[i]).end.secs as int,
        ) && segs[i].end.nanos == planned_end.nanos)
}

/// A stored anchor day lies in 1–31 and a stored anchor month in 1–12
/// (an absent one is taken from the stored end, which always fits).
pub open spec fn anchors_in_range(item: TimelineSourceItem) -> bool {
    &&& item.anchor_day matches Some(d) ==> 1 <= d <= 31
    &&& item.anchor_month matches Some(m) ==> 1 <= m <= 12
}

/// The segments of a monthly or yearly series: the cycle known to end at
/// the stored end, and, for a series still open, up to fifteen planned
/// cycles from a little before the view until one reaches its end.  Each
/// planned cycle runs from the end of the one before it and is a preview
/// once it starts at or after now.  Times that cannot be laid out, an
/// anchor day or month out of range, or cycles that do not move forward
/// are refused.
pub fn periodic_segments(
    item: &TimelineSourceItem,
    l: &Lifecycle,
    now: Instant,
    range_start_date: LocalDate,
    range_end: Instant,
) -> (r: AppResult<Vec<Segment>>)
    requires
        lifecycle_readable(*l),
        supported_date(range_start_date),
    ensures
        r matches Ok(segs) ==> {
            &&& 1 <= segs@.len() <= 16
            &&& segs@[0].start == l.created && segs@[0].end == l.planned_end
            &&& segs@[0].shape == SegmentShape::Occurrence && segs@[0].deadline == Some(l.planned_end)
            &&& segs@[0].occurrence == OccurrenceLabel::Current && segs@[0].history_incomplete
            &&& !segs@[0].allow_overdue && !segs@[0].future_preview
            &&& item.status@ == "DONE"@ ==> segs@.len() == 1
            &&& forall|i: int| 1 <= i < segs@.len() ==> planned_cycle(#[trigger] segs@[i], now)
            &&& forall|i: int| 2 <= i < segs@.len() ==> #[trigger] segs@[i].start == segs@[i - 1].end
            &&& forall|i: int| 1 <= i < segs@.len() - 1 ==> at(#[trigger] segs@[i].end) < at(range_end)
            &&& item.status@ != "DONE"@ ==> 2 <= segs@.len() && (segs@.len() == 16 || !(at(
                segs@.last().end,
            ) < at(range_end)))
            &&& exists|lp: LocalDateTime|
                #![trigger crate::clock::within_offset(lp, l.planned_end.secs as int)]
                crate::clock::within_offset(lp, l.planned_end.secs as int) && cycles_follow_plan(
                    *item,
                    l.planned_end,
                    lp,
                    range_start_date,
                    segs@,
                )
        },
        !anchors_in_range(*item) ==> (r matches Err(e) && is_validation(e, INVALID_TIME@)),
        anchors_in_range(*item) && item.status@ == "DONE"@ ==> (r matches Ok(segs) && segs@.len() == 1),
        r matches Err(e) ==> is_validation(e, INVALID_TIME@) || is_validation(e, "月份超出可用范围"@),
{
    let local = local_of(l.planned_end);
    let step: u32 = if opt_str_is(&item.event_kind, "YEARLY") {
        12
    } else {
        1
    };
    let anchor_day = match item.anchor_day {
        Some(d) => d,
        None => local.date.day,
    };
    let anchor_month = match item.anchor_month {
        Some(m) => m,
        None => local.date.month,
    };
    if anchor_day < 1 || anchor_day > 31 || anchor_month < 1 || anchor_month > 12 {
        return Err(validation(INVALID_TIME));
    }
    let mut segs: Vec<Segment> = Vec::new();
    segs.push(
        Segment {
            start: l.created,
            end: l.planned_end,
            shape: SegmentShape::Occurrence,
            highlight: None,
            deadline: Some(l.planned_end),
            business_start: None,
            open_ended: false,
            history_incomplete: true,
            occurrence: OccurrenceLabel::Current,
            future_preview: false,
            allow_overdue: false,
        },
    );
    if str_eq(item.status.as_str(), "DONE") {
        return Ok(segs);
    }
    let base = LocalDate { year: local.date.year, month: local.date.month, day: 1 };
    let range_month: i64 = (range_start_date.year as i64) * 12 + (range_start_date.month as i64) - 1;
    let anchor_index: i64 = (local.date.year as i64) * 12 + (local.date.month as i64) - 1;
    let gap: i64 = range_month - anchor_index;
    let first: u32 = if gap >= 0 && gap / (step as i64) - 1 > 1 {
        (gap / (step as i64) - 1) as u32
    } else {
        1
    };
    assert(first as int == first_index_spec(gap as int, step as int));
    assert(cycles_follow_plan(*item, l.planned_end, local, range_start_date, segs@));
    let mut previous = l.planned_end;
    if first > 1 {
        previous = occurrence_end(base, first - 1, step, anchor_month, anchor_day, local.seconds, l.planned_end.nanos)?;
    }
    let mut index: u32 = first;
    let last: u32 = first + 15;
    while index < last
        invariant
            first <= index <= last,
            last == first + 15,
            item.status@ != "DONE"@,
            anchors_in_range(*item),
            supported_date(base),
            base.day == 1,
            step == 1 || step == 12,
            1 <= anchor_month <= 12,
            local.seconds < 86400,
            segs@.len() == 1 + (index - first),
            crate::clock::within_offset(local, l.planned_end.secs as int),
            first as int == first_index_spec(
                (range_start_date.year * 12 + range_start_date.month - 1) - (local.date.year * 12
                    + local.date.month - 1),
                step as int,
            ),
            step == (if opt_is(item.event_kind, "YEARLY"@) {
                12u32
            } else {
                1u32
            }),
            anchor_day == (match item.anchor_day {
                Some(d) => d,
                None => local.date.day,
            }),
            anchor_month == (match item.anchor_month {
                Some(m) => m,
                None => local.date.month,
            }),
            base == (LocalDate { year: local.date.year, month: local.date.month, day: 1 }),
            cycles_follow_plan(*item, l.planned_end, local, range_start_date, segs@),
            segs@[0].start == l.created && segs@[0].end == l.planned_end,
            segs@[0].shape == SegmentShape::Occurrence && segs@[0].deadline == Some(l.planned_end),
            segs@[0].occurrence == OccurrenceLabel::Current && segs@[0].history_incomplete,
            !segs@[0].allow_overdue && !segs@[0].future_preview,
            segs@.len() > 1 ==> previous == segs@.last().end,
            forall|i: int| 1 <= i < segs@.len() ==> planned_cycle(#[trigger] segs@[i], now),
            forall|i: int| 2 <= i < segs@.len() ==> #[trigger] segs@[i].start == segs@[i - 1].end,
            forall|i: int| 1 <= i < segs@.len() ==> at(#[trigger] segs@[i].end) < at(range_end),
        decreases last - index,
    {
        let end = occurrence_end(base, index, step, anchor_month, anchor_day, local.seconds, l.planned_end.nanos)?;
        if !earlier(previous, end) {
            return Err(validation(INVALID_TIME));
        }
        if !instant_ok_exec(end.secs) {
            return Err(validation(INVALID_TIME));
        }
        let shown = to_local(end.secs);
        let seg = Segment {
            start: previous,
            end,
            shape: SegmentShape::Occurrence,
            highlight: None,
            deadline: Some(end),
            business_start: None,
            open_ended: false,
            history_incomplete: true,
            occurrence: OccurrenceLabel::Planned { year: shown.date.year, month: shown.date.month },
            future_preview: !earlier(previous, now),
            allow_overdue: false,
        };
        let ghost before = segs@;
        segs.push(seg);
        proof {
            assert(segs@ == before.push(seg));
            assert(segs@[segs@.len() - 1] == seg);
            assert forall|i: int| 1 <= i < segs@.len() implies planned_cycle(#[trigger] segs@[i], now) by {
                if i < before.len() {
                    assert(segs@[i] == before[i]);
                    assert(planned_cycle(before[i], now));
                } else {
                    assert(segs@[i] == seg);
                }
            }
            assert forall|i: int| 2 <= i < segs@.len() implies #[trigger] segs@[i].start == segs@[i
                - 1].end by {
                if i < before.len() {
                    assert(segs@[i] == before[i]);
                    assert(segs@[i - 1] == before[i - 1]);
                } else if before.len() > 1 {
                    assert(segs@[i - 1] == before.last());
                }
            }
            assert forall|i: int| 1 <= i < segs@.len() implies (occurrence_spec(
                base,
                (first + i - 1) as u32,
                step,
                anchor_month,
                anchor_day,
            ) matches Ok(d) && crate::clock::resolves_near(
                LocalDateTime { date: d, seconds: local.seconds },
                (#[trigger] segs@[i]).end.secs as int,
            ) && segs@[i].end.nanos == l.planned_end.nanos) by {
                if i < before.len() {
                    assert(segs@[i] == before[i]);
                } else {
                    assert(segs@[i] == seg);
                    assert((first + i - 1) as u32 == index);
                }
            }
            assert(cycles_follow_plan(*item, l.planned_end, local, range_start_date, segs@));
        }
        if !earlier(end, range_end) {
            return Ok(segs);
        }
        previous = end;
        index = index + 1;
    }
    Ok(segs)
}

// ---------------------------------------------------------------------------
// Gathering a view
// ---------------------------------------------------------------------------
/// The entry beside the canvas for an item whose times cannot be read.
pub open spec fn unscheduled_entry_of(u: TimelineUnscheduledItem, item: TimelineSourceItem) -> bool {
    &&& u.item_id@ == item.id@
    &&& u.title@ == item.title@
    &&& u.status@ == item.status@
    &&& crate::schedule::opt_view(u.event_kind) == crate::schedule::opt_view(item.event_kind)
    &&& u.reason@ == INVALID_TIME@
}

/// What a view has gathered so far: the items listed beside the canvas,
/// how many entries it keeps, and the counts it reports.
#[derive(Debug, Clone)]
pub struct TimelineTally {
    pub unscheduled: Vec<TimelineUnscheduledItem>,
    pub kept_entries: u64,
    pub total_visible_count: u64,
    pub total_unscheduled_count: u64,
    pub skipped_invalid_count: u64,
}

impl TimelineTally {
    /// Nothing gathered yet.
    pub fn new() -> (r: Self)
        ensures
            r.unscheduled@.len() == 0,
            r.kept_entries == 0,
            r.total_visible_count == 0,
            r.total_unscheduled_count == 0,
            r.skipped_invalid_count == 0,
    {
        TimelineTally {
            unscheduled: Vec::new(),
            kept_entries: 0,
            total_visible_count: 0,
            total_unscheduled_count: 0,
            skipped_invalid_count: 0,
        }
    }

    /// How many more entries the view may keep.
    pub fn room(&self) -> (r: usize)
        ensures
            r == (if self.kept_entries < MAX_VISIBLE_ENTRIES {
                MAX_VISIBLE_ENTRIES - self.kept_entries
            } else {
                0
            }),
    {
        if self.kept_entries < MAX_VISIBLE_ENTRIES as u64 {
            MAX_VISIBLE_ENTRIES - self.kept_entries as usize
        } else {
            0
        }
    }

    /// An item was laid out: `total` of its segments reach the view and
    /// `kept` of them are kept.
    pub fn record_projected(&mut self, total: u64, kept: u64)
        requires
            old(self).total_visible_count + total <= u64::MAX,
            old(self).kept_entries + kept <= u64::MAX,
        ensures
            final(self).total_visible_count == old(self).total_visible_count + total,
            final(self).kept_entries == old(self).kept_entries + kept,
            final(self).unscheduled@ == old(self).unscheduled@,
            final(self).total_unscheduled_count == old(self).total_unscheduled_count,
            final(self).skipped_invalid_count == old(self).skipped_invalid_count,
    {
        self.total_visible_count = self.total_visible_count + total;
        self.kept_entries = self.kept_entries + kept;
    }

    /// An item's times could not be read: it is counted, and listed while
    /// the list is not full.
    pub fn record_invalid(&mut self, item: &TimelineSourceItem)
        requires
            old(self).total_unscheduled_count < u64::MAX,
            old(self).skipped_invalid_count < u64::MAX,
        ensures
            final(self).total_unscheduled_count == old(self).total_unscheduled_count + 1,
            final(self).skipped_invalid_count == old(self).skipped_invalid_count + 1,
            final(self).total_visible_count == old(self).total_visible_count,
            final(self).kept_entries == old(self).kept_entries,
            old(self).unscheduled@.len() < MAX_UNSCHEDULED_ITEMS ==> final(self).unscheduled@.len()
                == old(self).unscheduled@.len() + 1 && final(self).unscheduled@.drop_last()
                == old(self).unscheduled@ && unscheduled_entry_of(
                final(self).unscheduled@.last(),
                *item,
            ),
            old(self).unscheduled@.len() >= MAX_UNSCHEDULED_ITEMS ==> final(self).unscheduled@
                == old(self).unscheduled@,
    {
        self.total_unscheduled_count = self.total_unscheduled_count + 1;
        self.skipped_invalid_count = self.skipped_invalid_count + 1;
        if self.unscheduled.len() < MAX_UNSCHEDULED_ITEMS {
            let entry = TimelineUnscheduledItem {
                item_id: crate::text::owned(item.id.as_str()),
                title: crate::text::owned(item.title.as_str()),
                status: crate::text::owned(item.status.as_str()),
                event_kind: crate::schedule::copy_opt(&item.event_kind),
                reason: crate::text::owned(INVALID_TIME),
            };
            self.unscheduled.push(entry);
            assert(self.unscheduled@.drop_last() =~= old(self).unscheduled@);
        }
    }

    /// The view leaves something out: more entries reach it than it keeps,
    /// or more items lack readable times than it lists.
    pub fn truncated(&self) -> (r: bool)
        ensures
            r == (self.total_visible_count > self.kept_entries || self.total_unscheduled_count
                > self.unscheduled@.len()),
    {
        self.total_visible_count > self.kept_entries || self.total_unscheduled_count
            > self.unscheduled.len() as u64
    }
}

/// The items are in order of their titles.
pub open spec fn titles_sorted(s: Seq<TimelineUnscheduledItem>) -> bool {
    forall|i: int, j: int| 0 <= i < j < s.len() ==> crate::domain::lex_le(#[trigger] s[i].title@, #[trigger] s[j].title@)
}

/// The listed items in order of their titles, as a stable sort leaves them
/// (the contract states the order of the titles and that no item is added
/// or lost, not the order among items with the same title).
pub fn unscheduled_by_title(items: Vec<TimelineUnscheduledItem>) -> (r: Vec<TimelineUnscheduledItem>)
    ensures
        titles_sorted(r@),
        r@.to_multiset() == items@.to_multiset(),
{
    broadcast use vstd::seq_lib::group_to_multiset_ensures;

    let ghost given = items@;
    let mut rest = items;
    let mut out: Vec<TimelineUnscheduledItem> = Vec::new();
    while rest.len() > 0
        invariant
            titles_sorted(out@),
            out@.to_multiset().add(rest@.to_multiset()) == given.to_multiset(),
        decreases rest@.len(),
    {
        let ghost before_rest = rest@;
        let x = rest.pop().unwrap();
        assert(before_rest == rest@.push(x));
        let mut p: usize = 0;
        while p < out.len() && !crate::item_rules::text_le(x.title.as_str(), out[p].title.as_str())
            invariant
                p <= out@.len(),
                titles_sorted(out@),
                forall|k: int| 0 <= k < p ==> crate::domain::lex_le((#[trigger] out@[k]).title@, x.title@),
            decreases out@.len() - p,
        {
            proof {
                crate::domain::lemma_lex_total(x.title@, out@[p as int].title@);
            }
            p = p + 1;
        }
        let ghost before = out@;
        proof {
            assert forall|k: int| p <= k < before.len() implies crate::domain::lex_le(
                x.title@,
                (#[trigger] before[k]).title@,
            ) by {
                if k > p {
                    crate::domain::lemma_lex_trans(x.title@, before[p as int].title@, before[k].title@);
                }
            }
        }
        out.insert(p, x);
        proof {
            assert(out@ == before.insert(p as int, x));
            assert forall|i: int, j: int| 0 <= i < j < out@.len() implies crate::domain::lex_le(
                (#[trigger] out@[i]).title@,
                (#[trigger] out@[j]).title@,
            ) by {
                if j < p {
                } else if i < p && j == p {
                } else if i < p && j > p {
                    assert(out@[j] == before[j - 1]);
                } else if i == p {
                    assert(out@[j] == before[j - 1]);
                } else {
                    assert(out@[i] == before[i - 1]);
                    assert(out@[j] == before[j - 1]);
                }
            }
            vstd::seq_lib::to_multiset_insert(before, p as int, x);
            vstd::seq_lib::to_multiset_build(rest@, x);
            assert(out@.to_multiset() == before.to_multiset().insert(x));
            assert(before_rest.to_multiset() == rest@.to_multiset().insert(x));
            assert(out@.to_multiset().add(rest@.to_multiset()) =~= before.to_multiset().add(
                before_rest.to_multiset(),
            ));
        }
    }
    out
}

} // verus!
