//! When an item's reminders fall: the first reminder of a new item, the
//! next one after a delivery, and when a reminder stops for good.
use vstd::prelude::*;

use crate::clock::{
    chrono_parse_hm, chrono_parse_ymd, chrono_rfc3339_seconds, date_tuple, days_in_month,
    format_hm, format_rfc3339, format_ymd, hm_text, instant_ok, parse_rfc3339, parse_ymd,
    rfc3339_range, schedulable, supported_date, timestamp_in_range, to_local, LocalDate, LocalDateTime,
    DAY_SECONDS, MAX_YEAR,
};
use crate::domain::{
    due_for_local_date, due_from_explicit, instant_ok_exec, is_schedule_unit_spec, must_complete_due,
    next_daily_at, next_default_due, next_repeat_at, next_repeat_slot_after, opt_is, opt_str_is,
    parse_time, shift_calendar, DueMoment, EventConfigurationInput, EventKindDefault, Item,
    Settings,
};
use crate::error::{is_validation, validation, AppError, AppResult};
use crate::text::{owned, str_eq};

verus! {

/// What the scheduler reads of an item whose reminder has just been sent.
#[derive(Debug, Clone)]
pub struct DueRow {
    pub id: String,
    pub title: String,
    pub completion_policy: String,
    pub reminder_plan: String,
    pub event_kind: Option<String>,
    pub repeat_interval_minutes: Option<u32>,
    pub scheduled_for: String,
    pub bypass_quiet_hours: bool,
    pub revision: u32,
    pub due_local_date: String,
    pub due_local_time: String,
    pub end_at: Option<String>,
    pub target_at: Option<String>,
    pub cadence_value: Option<u32>,
    pub cadence_unit: Option<String>,
    pub emphasis_max_per_day: u32,
    pub emphasis_count: u32,
    pub emphasis_count_local_date: Option<String>,
    pub series_anchor_month: Option<u32>,
    pub series_anchor_day: Option<u32>,
    pub repeat_time_first: Option<String>,
    pub repeat_time_second: Option<String>,
}

/// The stored repeat times of a row, in order; a row without any repeats at
/// its due time of day.
pub open spec fn row_repeat_times(row: DueRow) -> Seq<Seq<char>> {
    let first: Seq<Seq<char>> = match row.repeat_time_first {
        Some(t) => seq![t@],
        None => Seq::empty(),
    };
    let second: Seq<Seq<char>> = match row.repeat_time_second {
        Some(t) => seq![t@],
        None => Seq::empty(),
    };
    if row.repeat_time_first is None && row.repeat_time_second is None {
        seq![row.due_local_time@]
    } else {
        first + second
    }
}

/// The repeat times of a row.
pub fn repeat_times_for_row(row: &DueRow) -> (r: Vec<String>)
    ensures
        r@.map_values(|s: String| s@) == row_repeat_times(*row),
{
    let mut out: Vec<String> = Vec::new();
    if let Some(t) = &row.repeat_time_first {
        out.push(t.clone());
    }
    if let Some(t) = &row.repeat_time_second {
        out.push(t.clone());
    }
    if row.repeat_time_first.is_none() && row.repeat_time_second.is_none() {
        out.push(row.due_local_time.clone());
    }
    assert(out@.map_values(|s: String| s@) =~= row_repeat_times(*row));
    out
}

/// `a` is strictly earlier in the calendar than `b`.
pub open spec fn date_before(a: LocalDate, b: LocalDate) -> bool {
    a.year < b.year || (a.year == b.year && (a.month < b.month || (a.month == b.month && a.day
        < b.day)))
}

/// The date a stored `YYYY-MM-DD` text names (meaningful when it reads).
pub open spec fn stored_date(text: Seq<char>) -> LocalDate {
    let (y, m, d) = chrono_parse_ymd(text)->0;
    LocalDate { year: y, month: m, day: d }
}

/// Whether `a` is strictly earlier in the calendar than `b`.
pub fn date_is_before(a: LocalDate, b: LocalDate) -> (r: bool)
    ensures
        r == date_before(a, b),
{
    a.year < b.year || (a.year == b.year && (a.month < b.month || (a.month == b.month && a.day
        < b.day)))
}

/// The reminder of this row expires at the end of its local due day: a
/// one-time event, or a once-only ordinary or "today must" item.
pub open spec fn expires_at_day_end(row: DueRow) -> bool {
    opt_is(row.event_kind, "ONE_TIME"@) || (row.reminder_plan@ == "ONCE"@ && (opt_is(
        row.event_kind,
        "ORDINARY"@,
    ) || opt_is(row.event_kind, "TODAY_MUST"@)))
}

/// For a continuous event with an end: an unreadable end is an error, and
/// otherwise the reminder stops exactly when `now` is past the end.
pub open spec fn continuous_stop_answer(row: DueRow, now: i64, r: AppResult<bool>) -> bool {
    match row.end_at {
        Some(end) => match chrono_rfc3339_seconds(end@) {
            None => r matches Err(e) && is_validation(e, "持续事件的结束时间数据损坏"@),
            Some(t) => r == Ok::<bool, AppError>(now > t),
        },
        None => true,
    }
}

/// Whether a due reminder should be dropped without being delivered: a
/// reminder that expires at the end of its day once that day has passed
/// locally, or a continuous event after its end.
pub fn should_stop_without_delivery(row: &DueRow, now: i64) -> (r: AppResult<bool>)
    requires
        instant_ok(now as int),
    ensures
        expires_at_day_end(*row) && chrono_parse_ymd(row.due_local_date@) is None ==> (r matches Err(
            e,
        ) && is_validation(e, "一次性事件的本地日期数据损坏"@)),
        !expires_at_day_end(*row) && opt_is(row.event_kind, "CONTINUOUS"@) ==> continuous_stop_answer(
            *row,
            now,
            r,
        ),
        !expires_at_day_end(*row) && !(opt_is(row.event_kind, "CONTINUOUS"@) && row.end_at is Some)
            ==> r == Ok::<bool, AppError>(false),
        r == Ok::<bool, AppError>(true) ==> expires_at_day_end(*row) || opt_is(
            row.event_kind,
            "CONTINUOUS"@,
        ),
        // A reminder that expires at day end stops exactly when its due day
        // lies before the local day of `now` (read in a zone whose offset is
        // under a day).
        expires_at_day_end(*row) && chrono_parse_ymd(row.due_local_date@) is Some ==> (r matches Ok(
            b,
        ) && exists|n: crate::clock::LocalDateTime|
            #![trigger crate::clock::within_offset(n, now as int)]
            crate::clock::within_offset(n, now as int) && crate::clock::supported_local(n) && b
                == date_before(
                stored_date(row.due_local_date@),
                n.date,
            )),
{
    let one_time = opt_str_is(&row.event_kind, "ONE_TIME");
    let once_plan = str_eq(row.reminder_plan.as_str(), "ONCE");
    let ordinary_or_today = opt_str_is(&row.event_kind, "ORDINARY") || opt_str_is(
        &row.event_kind,
        "TODAY_MUST",
    );
    let expires = one_time || (once_plan && ordinary_or_today);
    if expires {
        let due_date = match parse_ymd(row.due_local_date.as_str()) {
            Some(d) => d,
            None => {
                return Err(validation("一次性事件的本地日期数据损坏"));
            },
        };
        let local = to_local(now);
        let today = local.date;
        proof {
            assert(crate::clock::within_offset(local, now as int));
            assert(date_tuple(due_date) == chrono_parse_ymd(row.due_local_date@)->0);
        }
        if date_is_before(due_date, today) {
            return Ok(true);
        }
        proof {
            reveal_strlit("CONTINUOUS");
            reveal_strlit("ONE_TIME");
            reveal_strlit("ORDINARY");
            reveal_strlit("TODAY_MUST");
            assert("CONTINUOUS"@.len() != "ONE_TIME"@.len());
            assert("CONTINUOUS"@.len() != "ORDINARY"@.len());
            assert("CONTINUOUS"@[0] != "TODAY_MUST"@[0]);
        }
    }
    if opt_str_is(&row.event_kind, "CONTINUOUS") {
        if let Some(end_text) = &row.end_at {
            let end = match parse_rfc3339(end_text.as_str()) {
                Some(t) => t,
                None => {
                    return Err(validation("持续事件的结束时间数据损坏"));
                },
            };
            if now > end {
                return Ok(true);
            }
        }
    }
    Ok(false)
}

/// `to` is where a shift by `amount` units of `from` was placed
/// (`shift_answer`).
#[verifier::opaque]
pub open spec fn calendar_step(from: int, amount: u32, unit: Seq<char>, to: int) -> bool {
    crate::domain::shift_answer(from, amount, unit, true, to)
}

/// `xs` are the successive shifts by `amount` units of `from`, each from
/// the one before, as the zone placed them (`calendar_step`).
pub open spec fn calendar_chain(from: int, amount: u32, unit: Seq<char>, xs: Seq<int>) -> bool
    decreases xs.len(),
{
    if xs.len() == 0 {
        true
    } else {
        calendar_step(from, amount, unit, xs[0]) && calendar_chain(xs[0], amount, unit, xs.drop_first())
    }
}

/// Where the next reminder of a cadence was placed: the first of the
/// successive shifts of `scheduled` that lies after `now`.
pub open spec fn calendar_answer(scheduled: int, now: int, amount: u32, unit: Seq<char>, t: int) -> bool {
    exists|xs: Seq<int>|
        #![trigger calendar_chain(scheduled, amount, unit, xs)]
        xs.len() >= 1 && calendar_chain(scheduled, amount, unit, xs) && (forall|j: int|
            0 <= j < xs.len() - 1 ==> #[trigger] xs[j] <= now) && xs.last() > now && t == xs.last()
}

proof fn lemma_chain_push(from: int, amount: u32, unit: Seq<char>, xs: Seq<int>, x: int)
    requires
        calendar_chain(from, amount, unit, xs),
        calendar_step(if xs.len() == 0 { from } else { xs.last() }, amount, unit, x),
    ensures
        calendar_chain(from, amount, unit, xs.push(x)),
    decreases xs.len(),
{
    let ys = xs.push(x);
    if xs.len() == 0 {
        assert(ys.drop_first() =~= Seq::<int>::empty());
        assert(ys[0] == x);
        assert(calendar_chain(x, amount, unit, ys.drop_first()));
    } else {
        assert(ys[0] == xs[0]);
        assert(ys.drop_first() =~= xs.drop_first().push(x));
        if xs.drop_first().len() > 0 {
            assert(xs.drop_first().last() == xs.last());
        }
        lemma_chain_push(xs[0], amount, unit, xs.drop_first(), x);
    }
}

/// The first shift by `amount` units of `scheduled`, repeated up to 512
/// times, that lies after `now`.
pub fn next_calendar_after(scheduled: i64, now: i64, amount: u32, unit: &str) -> (r: AppResult<
    i64,
>)
    requires
        instant_ok(scheduled as int),
    ensures
        (amount == 0 || !is_schedule_unit_spec(unit@)) ==> (r matches Err(e) && is_validation(
            e,
            "提醒周期无效"@,
        )),
        r matches Ok(t) ==> t > now && timestamp_in_range(t as int) && calendar_answer(
            scheduled as int,
            now as int,
            amount,
            unit@,
            t as int,
        ),
{
    let mut next = shift_calendar(scheduled, amount, unit, true)?;
    let ghost mut xs: Seq<int> = seq![next as int];
    proof {
        reveal(calendar_step);
        assert(calendar_step(scheduled as int, amount, unit@, next as int));
        assert(xs.drop_first() =~= Seq::<int>::empty());
        assert(xs[0] == next as int);
        assert(calendar_chain(next as int, amount, unit@, xs.drop_first()));
    }
    let mut round: u32 = 0;
    while round < 512
        invariant
            round <= 512,
            timestamp_in_range(next as int),
            amount > 0 && is_schedule_unit_spec(unit@),
            xs.len() >= 1,
            xs.last() == next as int,
            calendar_chain(scheduled as int, amount, unit@, xs),
            forall|j: int| 0 <= j < xs.len() - 1 ==> #[trigger] xs[j] <= now,
        decreases 512 - round,
    {
        if next > now {
            return Ok(next);
        }
        if !instant_ok_exec(next) {
            return Err(validation("无法计算下一次日历时间"));
        }
        let prev = next;
        next = shift_calendar(next, amount, unit, true)?;
        proof {
            reveal(calendar_step);
            assert(calendar_step(prev as int, amount, unit@, next as int));
            lemma_chain_push(scheduled as int, amount, unit@, xs, next as int);
            let before = xs;
            xs = xs.push(next as int);
            assert forall|j: int| 0 <= j < xs.len() - 1 implies #[trigger] xs[j] <= now by {
                assert(xs[j] == before[j]);
            }
        }
        round = round + 1;
    }
    Err(validation("无法在有限次计算内找到下一次提醒"))
}

/// The day (and, for a yearly event, the month) a series keeps returning to.
pub open spec fn series_anchor_spec(kind: Option<Seq<char>>, date: LocalDate) -> (Option<u32>, Option<u32>) {
    match kind {
        Some(k) => if k == "MONTHLY"@ {
            (None, Some(date.day))
        } else if k == "YEARLY"@ {
            (Some(date.month), Some(date.day))
        } else {
            (None, None)
        },
        None => (None, None),
    }
}

/// The anchor a monthly or yearly series keeps: its day of month, and for a
/// yearly series also its month.
pub fn series_anchor(kind: Option<&str>, date: LocalDate) -> (r: (Option<u32>, Option<u32>))
    ensures
        r == series_anchor_spec(
            match kind {
                Some(k) => Some(k@),
                None => None,
            },
            date,
        ),
{
    match kind {
        Some(k) => if str_eq(k, "MONTHLY") {
            (None, Some(date.day))
        } else if str_eq(k, "YEARLY") {
            (Some(date.month), Some(date.day))
        } else {
            (None, None)
        },
        None => (None, None),
    }
}

/// The month and year the series moves to from (`year`, `month`).
pub open spec fn series_step(monthly: bool, year: int, month: int, anchor_month: int) -> (int, int) {
    if monthly {
        if month == 12 {
            (year + 1, 1)
        } else {
            (year, month + 1)
        }
    } else {
        (year + 1, anchor_month)
    }
}

/// The date of the next occurrence of the series after the given month: the
/// anchor day clamped to the month's last day.
pub open spec fn series_date(year: int, month: int, day: int) -> LocalDate {
    let last = crate::clock::month_length(year, month);
    LocalDate { year: year as i32, month: month as u32, day: (if day <= last {
        day
    } else {
        last
    }) as u32 }
}

/// The month and year `k` steps on from (`year`, `month`).
pub open spec fn series_month(monthly: bool, year: int, month: int, anchor_month: int, k: nat) -> (
    int,
    int,
)
    decreases k,
{
    if k == 0 {
        (year, month)
    } else {
        let p = series_month(monthly, year, month, anchor_month, (k - 1) as nat);
        series_step(monthly, p.0, p.1, anchor_month)
    }
}

/// The wall-clock reading of the `k`-th cycle after the local reading `l`
/// of the scheduled moment: the anchor day (or the day of `l`), clamped to
/// the month's end, at the time of day of `l`.
pub open spec fn series_candidate(
    l: LocalDateTime,
    monthly: bool,
    anchor_month: Option<u32>,
    anchor_day: Option<u32>,
    k: nat,
) -> LocalDateTime {
    let am: int = match anchor_month {
        Some(m) => m as int,
        None => l.date.month as int,
    };
    let ad: int = match anchor_day {
        Some(d) => d as int,
        None => l.date.day as int,
    };
    let p = series_month(monthly, l.date.year as int, l.date.month as int, am, k);
    LocalDateTime { date: series_date(p.0, p.1, ad), seconds: l.seconds }
}

/// The cycles `1..=res.len()` after the local reading `l` of the scheduled
/// moment, as the zone resolved them, in order, are `res`.
pub open spec fn cycles_resolved(
    l: LocalDateTime,
    monthly: bool,
    anchor_month: Option<u32>,
    anchor_day: Option<u32>,
    res: Seq<int>,
) -> bool {
    forall|j: int|
        0 <= j < res.len() ==> crate::clock::resolves_near(
            series_candidate(l, monthly, anchor_month, anchor_day, (j + 1) as nat),
            #[trigger] res[j],
        )
}

/// Where the next cycle after `now` was placed, from the local reading `l`
/// of the scheduled moment: the first cycle after it, as the zone resolved
/// the cycles one by one, that lies after `now`.
pub open spec fn series_from(
    l: LocalDateTime,
    now: int,
    monthly: bool,
    anchor_month: Option<u32>,
    anchor_day: Option<u32>,
    t: int,
) -> bool {
    exists|res: Seq<int>|
        #![trigger cycles_resolved(l, monthly, anchor_month, anchor_day, res)]
        res.len() >= 1 && cycles_resolved(l, monthly, anchor_month, anchor_day, res) && (forall|j: int|
            0 <= j < res.len() - 1 ==> #[trigger] res[j] <= now) && res.last() > now && t == res.last()
}

/// Where the next cycle after `now` was placed: `series_from` for the local
/// reading of the scheduled moment (in a zone whose offset is under a day).
pub open spec fn series_answer(
    scheduled: int,
    now: int,
    monthly: bool,
    anchor_month: Option<u32>,
    anchor_day: Option<u32>,
    t: int,
) -> bool {
    exists|l: LocalDateTime|
        #![trigger crate::clock::within_offset(l, scheduled)]
        crate::clock::within_offset(l, scheduled) && series_from(l, now, monthly, anchor_month, anchor_day, t)
}

/// The next occurrence of a monthly or yearly series after `now`: month by
/// month (or year by year, in the anchor month) on the anchor day, clamped
/// to the end of shorter months, at the scheduled local time of day.
pub fn next_series_after(
    scheduled: i64,
    now: i64,
    kind: &str,
    anchor_month: Option<u32>,
    anchor_day: Option<u32>,
) -> (r: AppResult<i64>)
    requires
        rfc3339_range(scheduled as int),
    ensures
        !(kind@ == "MONTHLY"@ || kind@ == "YEARLY"@) ==> (r matches Err(e) && is_validation(
            e,
            "周期事件类型无效"@,
        )),
        r matches Ok(t) ==> t > now && timestamp_in_range(t as int) && series_answer(
            scheduled as int,
            now as int,
            kind@ == "MONTHLY"@,
            anchor_month,
            anchor_day,
            t as int,
        ),
{
    let local = to_local(scheduled);
    let monthly = str_eq(kind, "MONTHLY");
    let yearly = str_eq(kind, "YEARLY");
    if !monthly && !yearly {
        return Err(validation("周期事件类型无效"));
    }
    let mut year: i32 = local.date.year;
    let mut month: u32 = local.date.month;
    let day: u32 = match anchor_day {
        Some(d) => d,
        None => local.date.day,
    };
    let target_month: u32 = match anchor_month {
        Some(m) => m,
        None => local.date.month,
    };
    let start_year = year;
    let mut round: u32 = 0;
    let ghost mut res: Seq<int> = Seq::empty();
    while round < 512
        invariant
            round <= 512,
            start_year == local.date.year,
            -10 <= start_year <= 10000,
            kind@ == "MONTHLY"@ || kind@ == "YEARLY"@,
            start_year <= year <= start_year + round,
            1 <= month <= 12 || (!monthly && month == target_month),
            monthly ==> 1 <= month <= 12,
            local.seconds < DAY_SECONDS,
            monthly == (kind@ == "MONTHLY"@),
            crate::clock::within_offset(local, scheduled as int),
            day == (match anchor_day {
                Some(d) => d,
                None => local.date.day,
            }),
            target_month == (match anchor_month {
                Some(m) => m,
                None => local.date.month,
            }),
            (year as int, month as int) == series_month(
                monthly,
                local.date.year as int,
                local.date.month as int,
                target_month as int,
                round as nat,
            ),
            res.len() == round,
            cycles_resolved(local, monthly, anchor_month, anchor_day, res),
            forall|j: int| 0 <= j < res.len() ==> #[trigger] res[j] <= now,
        decreases 512 - round,
    {
        if monthly {
            if month == 12 {
                year = year + 1;
                month = 1;
            } else {
                month = month + 1;
            }
        } else {
            year = year + 1;
            month = target_month;
        }
        if month < 1 || month > 12 {
            if month == 0 {
                return Err(validation("无法计算下一次周期日期"));
            }
            return Err(validation("无法计算月末日期"));
        }
        let last_day = match days_in_month(year, month) {
            Ok(n) => n,
            Err(_) => {
                return Err(validation("无法计算月末日期"));
            },
        };
        let clamped = if day < last_day {
            day
        } else {
            last_day
        };
        if clamped == 0 {
            return Err(validation("无法计算下一次周期日期"));
        }
        let date = LocalDate { year, month, day: clamped };
        let ghost k: nat = (round + 1) as nat;
        assert(series_candidate(local, monthly, anchor_month, anchor_day, k) == LocalDateTime {
            date,
            seconds: local.seconds,
        });
        let candidate = due_for_local_date(date, local.seconds)?;
        let ghost before = res;
        proof {
            res = res.push(candidate.utc as int);
            assert forall|j: int| 0 <= j < res.len() implies crate::clock::resolves_near(
                series_candidate(local, monthly, anchor_month, anchor_day, (j + 1) as nat),
                #[trigger] res[j],
            ) by {
                if j < before.len() {
                    assert(res[j] == before[j]);
                }
            }
        }
        if candidate.utc > now {
            proof {
                assert forall|j: int| 0 <= j < res.len() - 1 implies #[trigger] res[j] <= now by {
                    assert(res[j] == before[j]);
                }
                assert(cycles_resolved(local, monthly, anchor_month, anchor_day, res));
                assert(res.last() == candidate.utc as int);
                assert(series_from(local, now as int, monthly, anchor_month, anchor_day, candidate.utc as int));
            }
            return Ok(candidate.utc);
        }
        proof {
            assert forall|j: int| 0 <= j < res.len() implies #[trigger] res[j] <= now by {
                if j < before.len() {
                    assert(res[j] == before[j]);
                }
            }
        }
        round = round + 1;
    }
    Err(validation("无法在有限次计算内找到下一次周期"))
}

/// Today's count of emphasis reminders stays below the daily limit after
/// this one, whatever the local day is: the limit is above one and the
/// stored count (when it has a day) plus this one stays below it.
pub open spec fn emphasis_below_limit(row: DueRow) -> bool {
    &&& row.emphasis_max_per_day > 1
    &&& row.emphasis_count_local_date is Some ==> row.emphasis_count < u32::MAX
        && row.emphasis_count + 1 < row.emphasis_max_per_day
}

/// Where the next emphasis reminder was placed: with today's count read on
/// the local day of `now` (in a zone whose offset is under a day), a
/// reached limit moves it to the due time of day (today if still ahead,
/// else tomorrow); otherwise it comes after the interval, unless quiet
/// hours hold it back.
pub open spec fn emphasis_answer(row: DueRow, settings: Settings, now: int, t: int) -> bool {
    exists|n: crate::clock::LocalDateTime|
        #![trigger crate::clock::within_offset(n, now)]
        crate::clock::within_offset(n, now) && crate::clock::supported_local(n) && if emphasis_count_on(
            row,
            crate::clock::chrono_format_ymd(n.date.year, n.date.month, n.date.day),
        ) >= row.emphasis_max_per_day {
            chrono_parse_hm(row.due_local_time@) matches Some(time) && crate::domain::daily_answer(
                now,
                time,
                t,
            )
        } else {
            (!settings.quiet_hours_enabled || row.bypass_quiet_hours) ==> t == now
                + repeat_interval_of(row, settings) * 60
        }
}

/// Today's count of emphasis reminders including this one, when the local
/// day is `today` (`YYYY-MM-DD`).
pub open spec fn emphasis_count_on(row: DueRow, today: Seq<char>) -> u32 {
    match row.emphasis_count_local_date {
        Some(d) => if d@ == today {
            if row.emphasis_count == u32::MAX {
                u32::MAX
            } else {
                (row.emphasis_count + 1) as u32
            }
        } else {
            1
        },
        None => 1,
    }
}

/// The interval of an emphasis or force reminder: the item's own, else
/// the overtime interval.
pub open spec fn repeat_interval_of(row: DueRow, settings: Settings) -> u32 {
    match row.repeat_interval_minutes {
        Some(m) => m,
        None => settings.overtime_interval_minutes,
    }
}

/// The next emphasis reminder: after the interval while today's count of
/// emphasis reminders stays below the daily limit, otherwise at the due
/// time of day tomorrow (or later today).
pub fn next_emphasis_at(row: &DueRow, now: i64, settings: &Settings) -> (r: AppResult<i64>)
    requires
        schedulable(now as int),
    ensures
        r matches Ok(t) ==> instant_ok(t as int),
        emphasis_below_limit(*row) && (!settings.quiet_hours_enabled || row.bypass_quiet_hours)
            ==> r == Ok::<i64, AppError>((now + repeat_interval_of(*row, *settings) * 60) as i64),
        row.emphasis_max_per_day <= 1 ==> match chrono_parse_hm(row.due_local_time@) {
            None => r matches Err(e) && is_validation(e, crate::domain::bad_time_message(row.due_local_time@)),
            Some(time) => r matches Ok(t) ==> crate::domain::daily_answer(now as int, time, t as int),
        },
        // In full: with today's count read on the local day of `now`, a
        // reached limit moves the reminder to the due time of day (today if
        // still ahead, else tomorrow), otherwise it comes after the interval.
        r matches Ok(t) ==> emphasis_answer(*row, *settings, now as int, t as int),
{
    let local = to_local(now);
    let local_date = format_ymd(local.date);
    let count: u32 = match &row.emphasis_count_local_date {
        Some(d) => if str_eq(d.as_str(), local_date.as_str()) {
            if row.emphasis_count == u32::MAX {
                u32::MAX
            } else {
                row.emphasis_count + 1
            }
        } else {
            1
        },
        None => 1,
    };
    proof {
        assert(crate::clock::within_offset(local, now as int));
        assert(count == emphasis_count_on(*row, local_date@));
    }
    if count >= row.emphasis_max_per_day {
        let time = parse_time(row.due_local_time.as_str())?;
        next_daily_at(now, time)
    } else {
        let interval = match row.repeat_interval_minutes {
            Some(m) => m,
            None => settings.overtime_interval_minutes,
        };
        next_repeat_at(now, interval, settings, row.bypass_quiet_hours)
    }
}

/// The optional instant a text reads as, or `None` when absent or unreadable.
fn lenient_time(value: &Option<String>) -> (r: Option<i64>)
    ensures
        r == match *value {
            Some(v) => chrono_rfc3339_seconds(v@),
            None => None,
        },
{
    match value {
        Some(v) => parse_rfc3339(v.as_str()),
        None => None,
    }
}

/// The continuous event's next reminder, kept only when it does not pass
/// the (readable) end.
pub open spec fn within_end(next: i64, end: Option<i64>) -> Option<i64> {
    match end {
        Some(e) => if next <= e {
            Some(next)
        } else {
            None
        },
        None => None,
    }
}

/// A warning with a target reminds no later than the target, and only while
/// both the delivered reminder and `now` are before it.
pub open spec fn warning_answer(row: DueRow, now: i64, r: AppResult<Option<i64>>) -> bool {
    match (row.target_at, r) {
        (Some(t), Ok(n)) => match chrono_rfc3339_seconds(t@) {
            Some(target) => match n {
                Some(v) => v <= target && now < target && chrono_rfc3339_seconds(
                    row.scheduled_for@,
                )->0 < target,
                None => !(now < target && chrono_rfc3339_seconds(row.scheduled_for@)->0 < target),
            },
            None => false,
        },
        _ => true,
    }
}

/// A continuous event reminds only before its readable end.
pub open spec fn continuous_answer(row: DueRow, r: AppResult<Option<i64>>) -> bool {
    match r {
        Ok(Some(v)) => match row.end_at {
            Some(e) => match chrono_rfc3339_seconds(e@) {
                Some(end) => v <= end,
                None => false,
            },
            None => false,
        },
        _ => true,
    }
}

/// The stored reminder time and due time of day of a row can be read.
pub open spec fn row_times_readable(row: DueRow) -> bool {
    chrono_rfc3339_seconds(row.scheduled_for@) is Some && chrono_parse_hm(row.due_local_time@) is Some
}

/// A plan that has no further reminder once delivered: not a warning or a
/// continuous event, no repeating plan and no series reminded once, and no
/// repeat of an unacknowledged reminder without a kind.
pub open spec fn plan_without_next(row: DueRow, settings: Settings) -> bool {
    &&& !opt_is(row.event_kind, "WARNING"@)
    &&& !opt_is(row.event_kind, "CONTINUOUS"@)
    &&& !(row.reminder_plan@ == "REPEAT"@ || row.reminder_plan@ == "EMPHASIS"@ || row.reminder_plan@
        == "FORCE"@ || row.reminder_plan@ == "CUSTOM"@ || (row.reminder_plan@ == "ONCE"@ && (opt_is(
        row.event_kind,
        "MONTHLY"@,
    ) || opt_is(row.event_kind, "YEARLY"@))))
    &&& !(settings.repeat_unacknowledged_enabled && row.event_kind is None)
}

/// A force plan (not a warning or continuous event) whose next reminder is
/// not held back by quiet hours.
pub open spec fn force_outside_quiet(row: DueRow, settings: Settings) -> bool {
    &&& !opt_is(row.event_kind, "WARNING"@)
    &&& !opt_is(row.event_kind, "CONTINUOUS"@)
    &&& row.reminder_plan@ == "FORCE"@
    &&& (!settings.quiet_hours_enabled || row.bypass_quiet_hours)
}

/// When the item's next reminder falls after a delivery at `now`, or `None`
/// when it has no further reminder.
pub fn next_after_delivery(row: &DueRow, now: i64, settings: &Settings) -> (r: AppResult<
    Option<i64>,
>)
    requires
        schedulable(now as int),
    ensures
        chrono_rfc3339_seconds(row.scheduled_for@) is None ==> (r matches Err(e) && is_validation(
            e,
            "提醒计划时间损坏"@,
        )),
        chrono_rfc3339_seconds(row.scheduled_for@) is Some && chrono_parse_hm(
            row.due_local_time@,
        ) is None ==> r is Err,
        // A warning stops at its target: never later, and not at all once
        // the reminder or the present has reached the target.
        opt_is(row.event_kind, "WARNING"@) ==> warning_answer(*row, now, r),
        // A continuous event never reminds after its end, nor without one.
        opt_is(row.event_kind, "CONTINUOUS"@) && !opt_is(row.event_kind, "WARNING"@)
            ==> continuous_answer(*row, r),
        // Plans without a next reminder.
        plan_without_next(*row, *settings) && r is Ok ==> r == Ok::<Option<i64>, AppError>(None),
        row_times_readable(*row) && plan_without_next(*row, *settings) ==> r == Ok::<
            Option<i64>,
            AppError,
        >(None),
        // Repeating plans always give a next reminder: the next repeat slot,
        // the emphasis answer, the next cycle of a series or of a custom
        // cadence (after now).
        !opt_is(row.event_kind, "WARNING"@) && !opt_is(row.event_kind, "CONTINUOUS"@)
            && row.reminder_plan@ == "REPEAT"@ ==> (r matches Ok(n) ==> (n matches Some(v)
            && crate::domain::slot_answer(now as int, row_repeat_times(*row), v as int))),
        !opt_is(row.event_kind, "WARNING"@) && !opt_is(row.event_kind, "CONTINUOUS"@)
            && row.reminder_plan@ == "EMPHASIS"@ ==> (r matches Ok(n) ==> (n matches Some(v)
            && emphasis_answer(*row, *settings, now as int, v as int))),
        !opt_is(row.event_kind, "WARNING"@) && !opt_is(row.event_kind, "CONTINUOUS"@)
            && row.reminder_plan@ == "ONCE"@ && (opt_is(row.event_kind, "MONTHLY"@) || opt_is(
            row.event_kind,
            "YEARLY"@,
        )) ==> (r matches Ok(n) ==> (n matches Some(v) && v > now && (chrono_rfc3339_seconds(
            row.scheduled_for@,
        ) matches Some(s) && series_answer(
            s as int,
            now as int,
            opt_is(row.event_kind, "MONTHLY"@),
            row.series_anchor_month,
            row.series_anchor_day,
            v as int,
        )))),
        !opt_is(row.event_kind, "WARNING"@) && !opt_is(row.event_kind, "CONTINUOUS"@)
            && row.reminder_plan@ == "CUSTOM"@ && row.cadence_value is Some && row.cadence_unit is Some
            ==> (r matches Ok(n) ==> (n matches Some(v) && v > now && (chrono_rfc3339_seconds(
            row.scheduled_for@,
        ) matches Some(s) && calendar_answer(
            s as int,
            now as int,
            row.cadence_value->Some_0,
            row.cadence_unit->Some_0@,
            v as int,
        )))),
        !opt_is(row.event_kind, "WARNING"@) && !opt_is(row.event_kind, "CONTINUOUS"@)
            && row.reminder_plan@ == "FORCE"@ ==> (r matches Ok(n) ==> n is Some),
        // A force plan repeats after its interval when quiet hours do not apply.
        row_times_readable(*row) && force_outside_quiet(*row, *settings) ==> r == Ok::<
            Option<i64>,
            AppError,
        >(Some((now + repeat_interval_of(*row, *settings) * 60) as i64)),
        r matches Ok(Some(v)) ==> timestamp_in_range(v as int),
{
    let scheduled = match parse_rfc3339(row.scheduled_for.as_str()) {
        Some(t) => t,
        None => {
            return Err(validation("提醒计划时间损坏"));
        },
    };
    let local_time = parse_time(row.due_local_time.as_str())?;
    let repeat_times = repeat_times_for_row(row);
    let kind_warning = opt_str_is(&row.event_kind, "WARNING");
    if kind_warning {
        if let Some(target_text) = &row.target_at {
            let target = match parse_rfc3339(target_text.as_str()) {
                Some(t) => t,
                None => {
                    return Err(validation("预警目标时间损坏"));
                },
            };
            if scheduled < target && now < target {
                let next = if str_eq(row.reminder_plan.as_str(), "REPEAT") {
                    next_repeat_slot_after(now, repeat_times.as_slice())?
                } else {
                    next_daily_at(now, local_time)?
                };
                let capped = if next < target {
                    next
                } else {
                    target
                };
                return Ok(Some(capped));
            }
            return Ok(None);
        }
    }
    if opt_str_is(&row.event_kind, "CONTINUOUS") {
        let end = lenient_time(&row.end_at);
        let next = if str_eq(row.reminder_plan.as_str(), "REPEAT") {
            next_repeat_slot_after(now, repeat_times.as_slice())?
        } else {
            let amount = match row.cadence_value {
                Some(v) => v,
                None => 1,
            };
            match &row.cadence_unit {
                Some(unit) => next_calendar_after(scheduled, now, amount, unit.as_str())?,
                None => next_calendar_after(scheduled, now, amount, "DAY")?,
            }
        };
        return Ok(
            match end {
                Some(e) => if next <= e {
                    Some(next)
                } else {
                    None
                },
                None => None,
            },
        );
    }
    let series = opt_str_is(&row.event_kind, "MONTHLY") || opt_str_is(&row.event_kind, "YEARLY");
    proof {
        reveal_strlit("ONCE");
        reveal_strlit("FORCE");
        reveal_strlit("REPEAT");
        reveal_strlit("EMPHASIS");
        assert("ONCE"@.len() != "FORCE"@.len());
        assert("REPEAT"@.len() != "FORCE"@.len());
        assert("EMPHASIS"@.len() != "FORCE"@.len());
        reveal_strlit("CUSTOM");
        assert("CUSTOM"@[0] != "REPEAT"@[0]);
        assert("CUSTOM"@.len() != "EMPHASIS"@.len());
        assert("CUSTOM"@.len() != "FORCE"@.len());
        assert("CUSTOM"@.len() != "ONCE"@.len());
    }
    if series && str_eq(row.reminder_plan.as_str(), "ONCE") {
        let kind = match &row.event_kind {
            Some(k) => k.as_str(),
            None => "",
        };
        let next = next_series_after(
            scheduled,
            now,
            kind,
            row.series_anchor_month,
            row.series_anchor_day,
        )?;
        return Ok(Some(next));
    }
    if str_eq(row.reminder_plan.as_str(), "REPEAT") {
        let next = next_repeat_slot_after(now, repeat_times.as_slice())?;
        return Ok(Some(next));
    }
    if str_eq(row.reminder_plan.as_str(), "EMPHASIS") {
        let next = next_emphasis_at(row, now, settings)?;
        return Ok(Some(next));
    }
    if str_eq(row.reminder_plan.as_str(), "FORCE") {
        let interval = match row.repeat_interval_minutes {
            Some(m) => m,
            None => settings.overtime_interval_minutes,
        };
        let next = next_repeat_at(now, interval, settings, row.bypass_quiet_hours)?;
        return Ok(Some(next));
    }
    if str_eq(row.reminder_plan.as_str(), "CUSTOM") {
        return match (row.cadence_value, &row.cadence_unit) {
            (Some(value), Some(unit)) => {
                let next = next_calendar_after(scheduled, now, value, unit.as_str())?;
                Ok(Some(next))
            },
            _ => Ok(None),
        };
    }
    if !series && settings.repeat_unacknowledged_enabled && row.event_kind.is_none() {
        let next = next_repeat_at(
            now,
            settings.unacknowledged_repeat_minutes,
            settings,
            row.bypass_quiet_hours,
        )?;
        return Ok(Some(next));
    }
    Ok(None)
}


// ---------------------------------------------------------------------------
// First schedule of a new or changed item
// ---------------------------------------------------------------------------
/// An item's event settings with the defaults filled in.
#[derive(Debug, Clone)]
pub struct ResolvedEventConfig {
    pub kind: Option<String>,
    pub reminder_plan: String,
    pub important: bool,
    pub start_at: Option<String>,
    pub end_at: Option<String>,
    pub target_at: Option<String>,
    pub lead_value: Option<u32>,
    pub lead_unit: Option<String>,
    pub cadence_value: Option<u32>,
    pub cadence_unit: Option<String>,
    pub emphasis_max_per_day: u32,
    pub repeat_time_mode: Option<String>,
    pub repeat_times: Vec<String>,
}

/// The text views of an optional string.
pub open spec fn opt_view(o: Option<String>) -> Option<Seq<char>> {
    match o {
        Some(s) => Some(s@),
        None => None,
    }
}

/// A copy of an optional string.
pub fn copy_opt(o: &Option<String>) -> (r: Option<String>)
    ensures
        opt_view(r) == opt_view(*o),
{
    match o {
        Some(s) => Some(s.clone()),
        None => None,
    }
}

/// A copy of a list of strings.
pub fn copy_strings(v: &Vec<String>) -> (r: Vec<String>)
    ensures
        r@.len() == v@.len(),
        forall|i: int| 0 <= i < v@.len() ==> (#[trigger] r@[i])@ == v@[i]@,
{
    let mut out: Vec<String> = Vec::new();
    let mut i: usize = 0;
    while i < v.len()
        invariant
            i <= v.len(),
            out@.len() == i,
            forall|k: int| 0 <= k < i ==> (#[trigger] out@[k])@ == v@[k]@,
        decreases v.len() - i,
    {
        out.push(v[i].clone());
        i = i + 1;
    }
    out
}

impl ResolvedEventConfig {
    /// The event settings an existing item already holds.
    pub fn from_item(item: &Item) -> (r: Self)
        ensures
            opt_view(r.kind) == opt_view(item.event_kind),
            r.reminder_plan@ == item.reminder_plan@,
            r.important == item.important,
            opt_view(r.start_at) == opt_view(item.start_at),
            opt_view(r.end_at) == opt_view(item.end_at),
            opt_view(r.target_at) == opt_view(item.target_at),
            r.lead_value == item.lead_value,
            opt_view(r.lead_unit) == opt_view(item.lead_unit),
            r.cadence_value == item.cadence_value,
            opt_view(r.cadence_unit) == opt_view(item.cadence_unit),
            r.emphasis_max_per_day == item.emphasis_max_per_day,
            opt_view(r.repeat_time_mode) == Some(item.repeat_time_mode@),
            r.repeat_times@.len() == item.repeat_times@.len(),
            forall|i: int|
                0 <= i < item.repeat_times@.len() ==> (#[trigger] r.repeat_times@[i])@
                    == item.repeat_times@[i]@,
    {
        ResolvedEventConfig {
            kind: copy_opt(&item.event_kind),
            reminder_plan: item.reminder_plan.clone(),
            important: item.important,
            start_at: copy_opt(&item.start_at),
            end_at: copy_opt(&item.end_at),
            target_at: copy_opt(&item.target_at),
            lead_value: item.lead_value,
            lead_unit: copy_opt(&item.lead_unit),
            cadence_value: item.cadence_value,
            cadence_unit: copy_opt(&item.cadence_unit),
            emphasis_max_per_day: item.emphasis_max_per_day,
            repeat_time_mode: Some(item.repeat_time_mode.clone()),
            repeat_times: copy_strings(&item.repeat_times),
        }
    }
}

/// The default plan stored for `kind`: that of the first entry naming it.
pub open spec fn stored_default_plan(defaults: Seq<EventKindDefault>, kind: Seq<char>) -> Option<
    Seq<char>,
>
    decreases defaults.len(),
{
    if defaults.len() == 0 {
        None
    } else if defaults[0].event_kind@ == kind {
        Some(defaults[0].reminder_plan@)
    } else {
        stored_default_plan(defaults.drop_first(), kind)
    }
}

/// Looks up the default plan stored for `kind`.
fn find_default_plan(defaults: &[EventKindDefault], kind: &str) -> (r: Option<String>)
    ensures
        opt_view(r) == stored_default_plan(defaults@, kind@),
{
    let mut i: usize = 0;
    assert(defaults@.subrange(0, defaults@.len() as int) =~= defaults@);
    while i < defaults.len()
        invariant
            i <= defaults.len(),
            stored_default_plan(defaults@, kind@) == stored_default_plan(
                defaults@.subrange(i as int, defaults@.len() as int),
                kind@,
            ),
        decreases defaults.len() - i,
    {
        let ghost rest = defaults@.subrange(i as int, defaults@.len() as int);
        assert(rest.drop_first() =~= defaults@.subrange(i + 1, defaults@.len() as int));
        if str_eq(defaults[i].event_kind.as_str(), kind) {
            return Some(defaults[i].reminder_plan.clone());
        }
        i = i + 1;
    }
    None
}

/// The event kind a form chooses: its own, or "today must" for an item
/// entered with the legacy must-complete switch.
pub open spec fn chosen_kind(input: Option<EventConfigurationInput>, legacy: bool) -> Option<
    Seq<char>,
> {
    match input {
        Some(e) if e.kind is Some => opt_view(e.kind),
        _ => if legacy {
            Some("TODAY_MUST"@)
        } else {
            None
        },
    }
}

/// The reminder plan a form chooses: its own, else the stored default of
/// its kind, else "repeat".
pub open spec fn chosen_plan(
    defaults: Seq<EventKindDefault>,
    input: Option<EventConfigurationInput>,
    legacy: bool,
) -> Option<Seq<char>> {
    match input {
        Some(e) if e.reminder_plan is Some => opt_view(e.reminder_plan),
        _ => match chosen_kind(input, legacy) {
            Some(k) => stored_default_plan(defaults, k),
            None => Some("REPEAT"@),
        },
    }
}

/// The complaint about a form's event configuration, if it has one.
pub open spec fn input_problem(input: Option<EventConfigurationInput>) -> Option<Seq<char>> {
    match input {
        Some(e) => e.problem(),
        None => None,
    }
}

/// Fills in an item's event settings from the form: the kind (or "today
/// must" for the legacy switch), the plan (or the kind's stored default, or
/// "repeat"), a daily cadence for a custom plan without one, and at most
/// eight emphasis reminders a day unless chosen otherwise.
pub fn resolve_event_config(
    defaults: &[EventKindDefault],
    input: Option<&EventConfigurationInput>,
    legacy_must_complete: bool,
) -> (r: AppResult<ResolvedEventConfig>)
    ensures
        input_problem(
            match input {
                Some(e) => Some(*e),
                None => None,
            },
        ) matches Some(m) ==> (r matches Err(x) && is_validation(x, m)),
        r matches Ok(c) ==> (opt_view(c.kind) == chosen_kind(
            match input {
                Some(e) => Some(*e),
                None => None,
            },
            legacy_must_complete,
        ) && Some(c.reminder_plan@) == chosen_plan(
            defaults@,
            match input {
                Some(e) => Some(*e),
                None => None,
            },
            legacy_must_complete,
        ) && c.emphasis_max_per_day == match input {
            Some(e) => match e.emphasis_max_per_day {
                Some(v) => v,
                None => 8u32,
            },
            None => 8u32,
        } && (c.reminder_plan@ == "CUSTOM"@ ==> c.cadence_value is Some && c.cadence_unit is Some)),
        r is Err && input_problem(
            match input {
                Some(e) => Some(*e),
                None => None,
            },
        ) is None ==> chosen_plan(
            defaults@,
            match input {
                Some(e) => Some(*e),
                None => None,
            },
            legacy_must_complete,
        ) is None,
{
    if let Some(config) = input {
        config.validate()?;
    }
    let kind: Option<String> = match input {
        Some(config) if config.kind.is_some() => copy_opt(&config.kind),
        _ => if legacy_must_complete {
            Some(owned("TODAY_MUST"))
        } else {
            None
        },
    };
    let plan: String = match input {
        Some(config) if config.reminder_plan.is_some() => match &config.reminder_plan {
            Some(p) => p.clone(),
            None => owned("REPEAT"),
        },
        _ => match &kind {
            Some(k) => match find_default_plan(defaults, k.as_str()) {
                Some(p) => p,
                None => {
                    return Err(crate::error::database_error("Query returned no rows"));
                },
            },
            None => owned("REPEAT"),
        },
    };
    let custom = str_eq(plan.as_str(), "CUSTOM");
    let (important, start_at, end_at, target_at, lead_value, lead_unit, cadence_value, cadence_unit, emphasis, mode, times) =
        match input {
        Some(c) => (
            c.important,
            copy_opt(&c.start_at),
            copy_opt(&c.end_at),
            copy_opt(&c.target_at),
            c.lead_value,
            copy_opt(&c.lead_unit),
            c.cadence_value,
            copy_opt(&c.cadence_unit),
            c.emphasis_max_per_day,
            copy_opt(&c.repeat_time_mode),
            copy_strings(&c.repeat_times),
        ),
        None => (false, None, None, None, None, None, None, None, None, None, Vec::new()),
    };
    let cadence_value = match cadence_value {
        Some(v) => Some(v),
        None => if custom {
            Some(1u32)
        } else {
            None
        },
    };
    let cadence_unit = match cadence_unit {
        Some(u) => Some(u),
        None => if custom {
            Some(owned("DAY"))
        } else {
            None
        },
    };
    let emphasis_max_per_day = match emphasis {
        Some(v) => v,
        None => 8,
    };
    Ok(
        ResolvedEventConfig {
            kind,
            reminder_plan: plan,
            important,
            start_at,
            end_at,
            target_at,
            lead_value,
            lead_unit,
            cadence_value,
            cadence_unit,
            emphasis_max_per_day,
            repeat_time_mode: mode,
            repeat_times: times,
        },
    )
}

/// Without given repeat times, a readable explicit due time gives one
/// "specified" time of day and an unreadable one is an error.
pub open spec fn explicit_repeat_answer(
    explicit_due: Option<Seq<char>>,
    r: AppResult<(String, Vec<String>)>,
) -> bool {
    match explicit_due {
        Some(d) => match chrono_rfc3339_seconds(d) {
            Some(_) => r matches Ok((mode, times)) && mode@ == "SPECIFIED"@ && times@.len() == 1
                && exists|t: int| 0 <= t < 86400 && times@[0]@ == #[trigger] hm_text(t),
            None => r is Err,
        },
        None => true,
    }
}

/// The repeat mode and times an item keeps.  Only a repeat plan is
/// normalised: "default" keeps two given times in order or takes the
/// settings' two times, "specified" keeps the first given time, and without
/// a mode or times the explicit due time of day (or the settings' times) is
/// used.
pub fn repeat_schedule_for_event(
    config: &ResolvedEventConfig,
    explicit_due: Option<&str>,
    settings: &Settings,
) -> (r: AppResult<(String, Vec<String>)>)
    ensures
        config.reminder_plan@ != "REPEAT"@ ==> (r matches Ok((mode, times)) && mode@ == match opt_view(
            config.repeat_time_mode,
        ) {
            Some(m) => m,
            None => "SPECIFIED"@,
        } && times@.len() == config.repeat_times@.len() && forall|i: int|
            0 <= i < times@.len() ==> (#[trigger] times@[i])@ == config.repeat_times@[i]@),
        config.reminder_plan@ == "REPEAT"@ && opt_view(config.repeat_time_mode) == Some(
            "DEFAULT"@,
        ) ==> (r matches Ok((mode, times)) && mode@ == "DEFAULT"@ && (config.repeat_times@.len()
            == 2 ==> crate::domain::views_sorted(times@)) && (config.repeat_times@.len() != 2
            ==> times@.len() == settings.repeat_default_times@.len())),
        config.reminder_plan@ == "REPEAT"@ && opt_view(config.repeat_time_mode) == Some(
            "SPECIFIED"@,
        ) && config.repeat_times@.len() > 0 ==> (r matches Ok((mode, times)) && mode@
            == "SPECIFIED"@ && times@.len() == 1 && times@[0]@ == config.repeat_times@[0]@),
        config.reminder_plan@ == "REPEAT"@ && config.repeat_times@.len() == 0 && !(opt_view(
            config.repeat_time_mode,
        ) == Some("DEFAULT"@)) ==> explicit_repeat_answer(
            match explicit_due {
                Some(d) => Some(d@),
                None => None,
            },
            r,
        ),
        // It fails only on an explicit due time that does not read.
        r is Err ==> (explicit_due matches Some(d) && chrono_rfc3339_seconds(d@) is None),
{
    if !str_eq(config.reminder_plan.as_str(), "REPEAT") {
        let mode = match &config.repeat_time_mode {
            Some(m) => m.clone(),
            None => owned("SPECIFIED"),
        };
        return Ok((mode, copy_strings(&config.repeat_times)));
    }
    proof {
        reveal_strlit("DEFAULT");
        reveal_strlit("SPECIFIED");
        assert("DEFAULT"@[0] != "SPECIFIED"@[0]);
        assert("DEFAULT"@ != "SPECIFIED"@);
    }
    let is_default = opt_str_is(&config.repeat_time_mode, "DEFAULT");
    let is_specified = opt_str_is(&config.repeat_time_mode, "SPECIFIED");
    if is_default && config.repeat_times.len() == 2 {
        let times = crate::domain::sort_strings(&config.repeat_times);
        return Ok((owned("DEFAULT"), times));
    }
    if is_default {
        return Ok((owned("DEFAULT"), copy_strings(&settings.repeat_default_times)));
    }
    if is_specified && config.repeat_times.len() > 0 {
        let mut one: Vec<String> = Vec::new();
        one.push(config.repeat_times[0].clone());
        return Ok((owned("SPECIFIED"), one));
    }
    if config.repeat_times.len() > 0 {
        let mode = match &config.repeat_time_mode {
            Some(m) => m.clone(),
            None => if config.repeat_times.len() == 2 {
                owned("DEFAULT")
            } else {
                owned("SPECIFIED")
            },
        };
        return Ok((mode, copy_strings(&config.repeat_times)));
    }
    if let Some(value) = explicit_due {
        let due = due_from_explicit(value)?;
        let mut one: Vec<String> = Vec::new();
        one.push(format_hm(due.local_time));
        return Ok((owned("SPECIFIED"), one));
    }
    Ok((owned("DEFAULT"), copy_strings(&settings.repeat_default_times)))
}


/// The due moment of a new item: the next repeat slot for a repeat plan
/// without an explicit time (except warnings and continuous events), the
/// target of a warning, the start of a continuous event, today's deadline
/// for a "today must" item, otherwise the explicit time or the next
/// default due time.
pub fn initial_due_for_event(
    config: &ResolvedEventConfig,
    explicit_due: Option<&str>,
    now: i64,
    settings: &Settings,
) -> (r: AppResult<DueMoment>)
    requires
        schedulable(now as int),
    ensures
        opt_is(config.kind, "WARNING"@) ==> match config.target_at {
            Some(t) => match chrono_rfc3339_seconds(t@) {
                Some(u) => r matches Ok(d) && d.utc == u,
                None => r matches Err(e) && is_validation(e, "指定时间格式无效"@),
            },
            None => r matches Err(e) && is_validation(e, "预警事件需要目标时间"@),
        },
        opt_is(config.kind, "CONTINUOUS"@) && !opt_is(config.kind, "WARNING"@) ==> match config.start_at {
            Some(t) => match chrono_rfc3339_seconds(t@) {
                Some(u) => r matches Ok(d) && d.utc == u,
                None => r matches Err(e) && is_validation(e, "指定时间格式无效"@),
            },
            None => r matches Err(e) && is_validation(e, "持续事件需要开始时间"@),
        },
        !(config.reminder_plan@ == "REPEAT"@ && explicit_due is None) && !opt_is(
            config.kind,
            "WARNING"@,
        ) && !opt_is(config.kind, "CONTINUOUS"@) ==> match explicit_due {
            Some(v) => match chrono_rfc3339_seconds(v@) {
                Some(u) => r matches Ok(d) && d.utc == u,
                None => r matches Err(e) && is_validation(e, "指定时间格式无效"@),
            },
            None => true,
        },
        // Without a given time (and not a repeat plan, a warning or a
        // continuous event): a "today must" item is due today, others at the
        // next default due time.
        explicit_due is None && config.reminder_plan@ != "REPEAT"@ && !opt_is(config.kind, "WARNING"@)
            && !opt_is(config.kind, "CONTINUOUS"@) ==> (r matches Ok(d) ==> if opt_is(
            config.kind,
            "TODAY_MUST"@,
        ) {
            crate::domain::must_complete_answer(now as int, *settings, d)
        } else {
            crate::domain::default_due_answer(now as int, *settings, d)
        }),
{
    let warning = opt_str_is(&config.kind, "WARNING");
    let continuous = opt_str_is(&config.kind, "CONTINUOUS");
    if str_eq(config.reminder_plan.as_str(), "REPEAT") && explicit_due.is_none() && !warning
        && !continuous {
        let (_, repeat_times) = repeat_schedule_for_event(config, explicit_due, settings)?;
        let next = next_repeat_slot_after(now, repeat_times.as_slice())?;
        let local = to_local(next);
        return due_for_local_date(local.date, local.seconds);
    }
    if warning {
        return match &config.target_at {
            Some(t) => due_from_explicit(t.as_str()),
            None => Err(validation("预警事件需要目标时间")),
        };
    }
    if continuous {
        return match &config.start_at {
            Some(t) => due_from_explicit(t.as_str()),
            None => Err(validation("持续事件需要开始时间")),
        };
    }
    if opt_str_is(&config.kind, "TODAY_MUST") {
        return match explicit_due {
            Some(value) => due_from_explicit(value),
            None => must_complete_due(now, settings),
        };
    }
    match explicit_due {
        Some(value) => due_from_explicit(value),
        None => next_default_due(now, settings),
    }
}

/// The first reminder of a new item, as RFC 3339 text and never before
/// `now`: a warning's lead time before its due moment, the next repeat slot
/// for a repeat plan already due, otherwise the due moment.
pub fn initial_next_reminder(
    config: &ResolvedEventConfig,
    due_at: i64,
    now: i64,
    repeat_times: &[String],
) -> (r: AppResult<String>)
    requires
        schedulable(now as int),
        instant_ok(due_at as int),
    ensures
        !opt_is(config.kind, "WARNING"@) && !(config.reminder_plan@ == "REPEAT"@ && due_at <= now)
            ==> (r matches Ok(text) && text@ == crate::clock::chrono_rfc3339_text(
            if due_at > now {
                due_at
            } else {
                now
            },
        )),
        r matches Ok(text) ==> exists|t: i64|
            t >= now && text@ == #[trigger] crate::clock::chrono_rfc3339_text(t),
{
    let candidate = if opt_str_is(&config.kind, "WARNING") {
        let amount = match config.lead_value {
            Some(v) => v,
            None => 1,
        };
        match &config.lead_unit {
            Some(unit) => shift_calendar(due_at, amount, unit.as_str(), false)?,
            None => shift_calendar(due_at, amount, "DAY", false)?,
        }
    } else if str_eq(config.reminder_plan.as_str(), "REPEAT") && due_at <= now {
        next_repeat_slot_after(now, repeat_times)?
    } else {
        due_at
    };
    let chosen = if candidate > now {
        candidate
    } else {
        now
    };
    Ok(format_rfc3339(chosen))
}

/// How many minutes to wait before retrying a failed system notification,
/// by how many times it has failed before: 1, 5, then 15 minutes, then no
/// more retries.
pub open spec fn notification_retry_delay_spec(failures: u32) -> Option<u32> {
    if failures == 0 {
        Some(1)
    } else if failures == 1 {
        Some(5)
    } else if failures == 2 {
        Some(15)
    } else {
        None
    }
}

/// The retry delay after a failed system notification.
pub fn notification_retry_delay(failures: u32) -> (r: Option<u32>)
    ensures
        r == notification_retry_delay_spec(failures),
{
    match failures {
        0 => Some(1),
        1 => Some(5),
        2 => Some(15),
        _ => None,
    }
}

/// When to retry a failed e-mail (single or digest), by the number of the
/// attempt that failed: one minute after the first, five after the second,
/// never after the third.
pub open spec fn email_retry_at_spec(attempts: u32, now: int) -> Option<int> {
    if attempts == 1 {
        Some(now + 60)
    } else if attempts == 2 {
        Some(now + 300)
    } else {
        None
    }
}

/// When to retry a failed e-mail delivery whose `attempts`-th attempt
/// failed.
pub fn email_retry_at(attempts: u32, now: i64) -> (r: Option<i64>)
    requires
        schedulable(now as int),
    ensures
        match r {
            Some(t) => email_retry_at_spec(attempts, now as int) == Some(t as int),
            None => email_retry_at_spec(attempts, now as int) is None,
        },
{
    match attempts {
        1 => Some(now + 60),
        2 => Some(now + 300),
        _ => None,
    }
}

} // verus!
