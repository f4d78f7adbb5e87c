//! What the store writes when an item is created, edited, completed,
//! paused, snoozed, deleted or restored: the checks each change makes and
//! the values it stores.  Stored times are RFC 3339 texts, compared as text
//! the way the store compares them.
use vstd::prelude::*;

use crate::clock::{chrono_rfc3339_seconds, chrono_rfc3339_text, format_rfc3339, schedulable};
use crate::domain::{
    instant_ok_exec, item_problem, lex_le, lex_le_exec, opt_is, opt_str_is, unresolvable_message,
    CreateItemInput, DueMoment, EventKindDefault, Item, Settings, UpdateItemInput,
};
use crate::error::{is_validation, validation, AppError, AppResult};
use crate::schedule::{
    initial_due_for_event, initial_next_reminder, next_series_after, opt_view,
    repeat_schedule_for_event, resolve_event_config, series_anchor, series_anchor_spec,
    ResolvedEventConfig,
};
use crate::text::{chars_of, owned, str_eq, trim, trim_seq};

verus! {

// ---------------------------------------------------------------------------
// Stored times compared as text
// ---------------------------------------------------------------------------
/// Whether the stored time `a` comes no later than `b`, as text.
pub fn text_le(a: &str, b: &str) -> (r: bool)
    ensures
        r == lex_le(a@, b@),
{
    let x = chars_of(a);
    let y = chars_of(b);
    lex_le_exec(&x, &y)
}

/// The time a reminder restarts at: its due time, or now when that has
/// passed.
pub open spec fn restart_at(due_at: Seq<char>, now_text: Seq<char>) -> Seq<char> {
    if lex_le(due_at, now_text) {
        now_text
    } else {
        due_at
    }
}

/// The time a reminder restarts at.
pub fn reminder_restart(due_at: &str, now_text: &str) -> (r: String)
    ensures
        r@ == restart_at(due_at@, now_text@),
{
    if text_le(due_at, now_text) {
        owned(now_text)
    } else {
        owned(due_at)
    }
}

// ---------------------------------------------------------------------------
// Completing and reopening
// ---------------------------------------------------------------------------
/// What completing (or reopening) an item writes.
#[derive(Debug, Clone)]
pub struct CompletionChange {
    pub status: String,
    pub completed_at: Option<String>,
    pub next_reminder: Option<String>,
    pub classification_next: Option<String>,
    pub event_type: String,
}

/// Completing an item stops its reminders; reopening it restarts them at
/// its due time (or now, when that has passed) and, for an item without an
/// event kind, asks for the kind again now.
pub fn completion_change(completed: bool, item: &Item, now_text: &str) -> (r: CompletionChange)
    ensures
        r.status@ == (if completed {
            "DONE"@
        } else {
            "OPEN"@
        }),
        opt_view(r.completed_at) == (if completed {
            Some(now_text@)
        } else {
            None
        }),
        opt_view(r.next_reminder) == (if completed {
            None
        } else {
            Some(restart_at(item.due_at@, now_text@))
        }),
        opt_view(r.classification_next) == (if completed || item.event_kind is Some {
            None
        } else {
            Some(now_text@)
        }),
        r.event_type@ == (if completed {
            "COMPLETED"@
        } else {
            "REOPENED"@
        }),
{
    if completed {
        CompletionChange {
            status: owned("DONE"),
            completed_at: Some(owned(now_text)),
            next_reminder: None,
            classification_next: None,
            event_type: owned("COMPLETED"),
        }
    } else {
        CompletionChange {
            status: owned("OPEN"),
            completed_at: None,
            next_reminder: Some(reminder_restart(item.due_at.as_str(), now_text)),
            classification_next: if item.event_kind.is_some() {
                None
            } else {
                Some(owned(now_text))
            },
            event_type: owned("REOPENED"),
        }
    }
}

// ---------------------------------------------------------------------------
// Choosing the kind "ordinary"
// ---------------------------------------------------------------------------
/// An item in the recycle bin cannot be given a kind; an open item that is
/// not paused starts reminding again at its due time (or now).
pub fn ordinary_reminder(item: &Item, now_text: &str) -> (r: AppResult<Option<String>>)
    ensures
        item.status@ == "DELETED"@ ==> (r matches Err(e) && is_validation(
            e,
            "请先从回收站恢复记录再选择类型"@,
        )),
        item.status@ != "DELETED"@ ==> (r matches Ok(n) && opt_view(n) == (if item.status@
            == "OPEN"@ && !item.reminder_paused {
            Some(restart_at(item.due_at@, now_text@))
        } else {
            None
        })),
{
    if str_eq(item.status.as_str(), "DELETED") {
        return Err(validation("请先从回收站恢复记录再选择类型"));
    }
    if str_eq(item.status.as_str(), "OPEN") && !item.reminder_paused {
        Ok(Some(reminder_restart(item.due_at.as_str(), now_text)))
    } else {
        Ok(None)
    }
}

/// A classification can be put off by 5 minutes to a day; the answer is
/// the instant it comes back.
pub fn classification_snooze_until(minutes: u32, now: i64) -> (r: AppResult<i64>)
    requires
        schedulable(now as int),
    ensures
        5 <= minutes <= 1440 ==> r == Ok::<i64, AppError>((now + minutes * 60) as i64),
        !(5 <= minutes <= 1440) ==> (r matches Err(e) && is_validation(
            e,
            "稍后处理时间必须在 5 分钟到 24 小时之间"@,
        )),
{
    if minutes < 5 || minutes > 1440 {
        return Err(validation("稍后处理时间必须在 5 分钟到 24 小时之间"));
    }
    Ok(now + (minutes as i64) * 60)
}

// ---------------------------------------------------------------------------
// Completing one cycle of a series
// ---------------------------------------------------------------------------
/// What completing the current cycle of a series does.
#[derive(Debug, Clone, Copy, PartialEq, Eq, Structural)]
pub enum SeriesCompletion {
    /// The cycle was already moved on and is still ahead: only acknowledge.
    Acknowledge,
    /// Move the series on to this next cycle.
    Advance(i64),
}

/// Completing the current cycle: only monthly and yearly series have
/// cycles; a cycle that is pending and still ahead is only acknowledged,
/// otherwise the series moves to its next cycle after now.
pub fn series_completion(
    item: &Item,
    pending: bool,
    anchor_month: Option<u32>,
    anchor_day: Option<u32>,
    now: i64,
) -> (r: AppResult<SeriesCompletion>)
    ensures
        !(opt_is(item.event_kind, "MONTHLY"@) || opt_is(item.event_kind, "YEARLY"@)) ==> (r matches Err(
            e,
        ) && is_validation(e, "只有月度或年度事件可以完成本次"@)),
        (opt_is(item.event_kind, "MONTHLY"@) || opt_is(item.event_kind, "YEARLY"@))
            && chrono_rfc3339_seconds(item.due_at@) is None ==> (r matches Err(e) && is_validation(
            e,
            "周期事件的当前时间数据损坏"@,
        )),
        (opt_is(item.event_kind, "MONTHLY"@) || opt_is(item.event_kind, "YEARLY"@)) && (
        chrono_rfc3339_seconds(item.due_at@) matches Some(current) && pending && current > now)
            ==> r == Ok::<SeriesCompletion, AppError>(SeriesCompletion::Acknowledge),
        r matches Ok(SeriesCompletion::Advance(t)) ==> t > now && (chrono_rfc3339_seconds(
            item.due_at@,
        ) matches Some(current) && crate::schedule::series_answer(
            current as int,
            now as int,
            opt_is(item.event_kind, "MONTHLY"@),
            anchor_month,
            anchor_day,
            t as int,
        )),
{
    let monthly = opt_str_is(&item.event_kind, "MONTHLY");
    let yearly = opt_str_is(&item.event_kind, "YEARLY");
    if !monthly && !yearly {
        return Err(validation("只有月度或年度事件可以完成本次"));
    }
    let current = match crate::clock::parse_rfc3339(item.due_at.as_str()) {
        Some(t) => t,
        None => {
            return Err(validation("周期事件的当前时间数据损坏"));
        },
    };
    if pending && current > now {
        return Ok(SeriesCompletion::Acknowledge);
    }
    let kind = if monthly {
        "MONTHLY"
    } else {
        "YEARLY"
    };
    let next = next_series_after(current, now, kind, anchor_month, anchor_day)?;
    Ok(SeriesCompletion::Advance(next))
}

// ---------------------------------------------------------------------------
// Pausing, rescheduling, acknowledging and snoozing
// ---------------------------------------------------------------------------
/// Only an open item can be paused or resumed; pausing stops its
/// reminders, resuming restarts them at its due time (or now).
pub fn pause_change(item: &Item, paused: bool, now_text: &str) -> (r: AppResult<Option<String>>)
    ensures
        item.status@ != "OPEN"@ ==> (r matches Err(e) && is_validation(e, "只有待处理事件可以暂停提醒"@)),
        item.status@ == "OPEN"@ ==> (r matches Ok(n) && opt_view(n) == (if paused {
            None
        } else {
            Some(restart_at(item.due_at@, now_text@))
        })),
{
    if !str_eq(item.status.as_str(), "OPEN") {
        return Err(validation("只有待处理事件可以暂停提醒"));
    }
    if paused {
        Ok(None)
    } else {
        Ok(Some(reminder_restart(item.due_at.as_str(), now_text)))
    }
}

/// The message when an overdue item's due time would be changed.
pub const OVERDUE_DUE_FIXED: &'static str = "逾期事项的原到期时间不能修改；可以转换类型并从现在开始新计划";

/// Only an open item that is not yet overdue can be given a new due time.
pub fn reschedule_allowed(item: &Item, now_text: &str) -> (r: AppResult<()>)
    ensures
        item.status@ != "OPEN"@ ==> (r matches Err(e) && is_validation(e, "只有未完成事项可以调整时间"@)),
        item.status@ == "OPEN"@ && !lex_le(now_text@, item.due_at@) ==> (r matches Err(e)
            && is_validation(e, OVERDUE_DUE_FIXED@)),
        item.status@ == "OPEN"@ && lex_le(now_text@, item.due_at@) ==> r is Ok,
{
    if !str_eq(item.status.as_str(), "OPEN") {
        return Err(validation("只有未完成事项可以调整时间"));
    }
    if !text_le(now_text, item.due_at.as_str()) {
        return Err(validation(OVERDUE_DUE_FIXED));
    }
    Ok(())
}

/// Only an open item's reminder can be acknowledged; an ordinary item then
/// stops reminding, others keep their next reminder.
pub fn acknowledge_change(item: &Item) -> (r: AppResult<Option<String>>)
    ensures
        item.status@ != "OPEN"@ ==> (r matches Err(e) && is_validation(e, "这个事项已经不需要确认提醒"@)),
        item.status@ == "OPEN"@ ==> (r matches Ok(n) && opt_view(n) == (if item.completion_policy@
            == "NORMAL"@ {
            None
        } else {
            opt_view(item.next_reminder_at)
        })),
{
    if !str_eq(item.status.as_str(), "OPEN") {
        return Err(validation("这个事项已经不需要确认提醒"));
    }
    if str_eq(item.completion_policy.as_str(), "NORMAL") {
        Ok(None)
    } else {
        Ok(crate::schedule::copy_opt(&item.next_reminder_at))
    }
}

/// A reminder can be put off by 5 to 240 minutes, and only for an open
/// item; the answer is the instant it comes back.
pub fn snooze_until(item: &Item, minutes: u32, now: i64) -> (r: AppResult<i64>)
    requires
        schedulable(now as int),
    ensures
        !(5 <= minutes <= 240) ==> (r matches Err(e) && is_validation(e, "稍后提醒时间必须在 5–240 分钟之间"@)),
        5 <= minutes <= 240 && item.status@ != "OPEN"@ ==> (r matches Err(e) && is_validation(
            e,
            "这个事项已经不需要稍后提醒"@,
        )),
        5 <= minutes <= 240 && item.status@ == "OPEN"@ ==> r == Ok::<i64, AppError>(
            (now + minutes * 60) as i64,
        ),
{
    if minutes < 5 || minutes > 240 {
        return Err(validation("稍后提醒时间必须在 5–240 分钟之间"));
    }
    if !str_eq(item.status.as_str(), "OPEN") {
        return Err(validation("这个事项已经不需要稍后提醒"));
    }
    Ok(now + (minutes as i64) * 60)
}

// ---------------------------------------------------------------------------
// The recycle bin
// ---------------------------------------------------------------------------
/// What moving an item into (or out of) the recycle bin writes.
#[derive(Debug, Clone)]
pub struct DeletionChange {
    pub status: String,
    pub deleted_at: Option<String>,
    pub next_reminder: Option<String>,
    /// The status to return to when restored.
    pub deleted_from_status: Option<String>,
    pub classification_next: Option<String>,
    pub event_type: String,
}

/// The status an item returns to from the bin: the one it had, else open.
pub open spec fn restored_status(deleted_from: Option<String>) -> Seq<char> {
    match deleted_from {
        Some(s) => s@,
        None => "OPEN"@,
    }
}

/// Deleting remembers the status and stops all reminders; restoring gives
/// the status back, and an open item reminds again from its due time (or
/// now) and, without an event kind, asks for one now.
pub fn deletion_change(
    item: &Item,
    deleted: bool,
    deleted_from_status: Option<String>,
    now_text: &str,
) -> (r: DeletionChange)
    ensures
        r.status@ == (if deleted {
            "DELETED"@
        } else {
            restored_status(deleted_from_status)
        }),
        opt_view(r.deleted_at) == (if deleted {
            Some(now_text@)
        } else {
            None
        }),
        opt_view(r.next_reminder) == (if deleted || r.status@ != "OPEN"@ {
            None
        } else {
            Some(restart_at(item.due_at@, now_text@))
        }),
        opt_view(r.deleted_from_status) == (if deleted {
            Some(item.status@)
        } else {
            None
        }),
        opt_view(r.classification_next) == (if deleted || r.status@ != "OPEN"@
            || item.event_kind is Some {
            None
        } else {
            Some(now_text@)
        }),
        r.event_type@ == (if deleted {
            "DELETED"@
        } else {
            "RESTORED"@
        }),
{
    let status = if deleted {
        owned("DELETED")
    } else {
        match deleted_from_status {
            Some(s) => s,
            None => owned("OPEN"),
        }
    };
    let open = !deleted && str_eq(status.as_str(), "OPEN");
    let next_reminder = if open {
        Some(reminder_restart(item.due_at.as_str(), now_text))
    } else {
        None
    };
    let classification_next = if open && item.event_kind.is_none() {
        Some(owned(now_text))
    } else {
        None
    };
    DeletionChange {
        status,
        deleted_at: if deleted {
            Some(owned(now_text))
        } else {
            None
        },
        next_reminder,
        deleted_from_status: if deleted {
            Some(item.status.clone())
        } else {
            None
        },
        classification_next,
        event_type: if deleted {
            owned("DELETED")
        } else {
            owned("RESTORED")
        },
    }
}

/// Only an item in the recycle bin can be deleted for good; `None` is an
/// item that does not exist.
pub fn permanent_delete_allowed(status: Option<String>) -> (r: AppResult<()>)
    ensures
        status is None ==> r == Err::<(), AppError>(AppError::ItemNotFound),
        status matches Some(s) && s@ != "DELETED"@ ==> (r matches Err(e) && is_validation(
            e,
            "只有回收站中的事项可以永久删除"@,
        )),
        status matches Some(s) && s@ == "DELETED"@ ==> r is Ok,
{
    match status {
        None => Err(AppError::ItemNotFound),
        Some(s) => if str_eq(s.as_str(), "DELETED") {
            Ok(())
        } else {
            Err(validation("只有回收站中的事项可以永久删除"))
        },
    }
}

// ---------------------------------------------------------------------------
// Creating and editing
// ---------------------------------------------------------------------------
/// What is stored for a new or edited item.
#[derive(Debug, Clone)]
pub struct ItemPlan {
    pub event: ResolvedEventConfig,
    /// The title without surrounding white space.
    pub title: String,
    pub due: DueMoment,
    pub due_at: String,
    pub due_source: String,
    pub rollover_policy: String,
    pub completion_policy: String,
    pub repeat_interval: Option<u32>,
    pub next_reminder: Option<String>,
    pub classification_next: Option<String>,
    pub time_mode: String,
    pub repeat_time_mode: String,
    pub repeat_times: Vec<String>,
    pub series_anchor_month: Option<u32>,
    pub series_anchor_day: Option<u32>,
}

/// The stored values that follow from the event settings alone: a "today
/// must" event must be completed today, and the emphasis and force plans
/// repeat at the given interval (else the overtime interval).
pub open spec fn policy_matches(p: ItemPlan, interval: Option<u32>, settings: Settings) -> bool {
    &&& p.completion_policy@ == (if opt_is(p.event.kind, "TODAY_MUST"@) {
        "MUST_COMPLETE_TODAY"@
    } else {
        "NORMAL"@
    })
    &&& p.repeat_interval == (if p.event.reminder_plan@ == "EMPHASIS"@ || p.event.reminder_plan@
        == "FORCE"@ {
        Some(
            match interval {
                Some(i) => i,
                None => settings.overtime_interval_minutes,
            },
        )
    } else {
        None
    })
    &&& p.due_at@ == chrono_rfc3339_text(p.due.utc)
    &&& (p.series_anchor_month, p.series_anchor_day) == series_anchor_spec(
        opt_view(p.event.kind),
        p.due.local_date,
    )
}

fn completion_policy_of(event: &ResolvedEventConfig) -> (r: String)
    ensures
        r@ == (if opt_is(event.kind, "TODAY_MUST"@) {
            "MUST_COMPLETE_TODAY"@
        } else {
            "NORMAL"@
        }),
{
    if opt_str_is(&event.kind, "TODAY_MUST") {
        owned("MUST_COMPLETE_TODAY")
    } else {
        owned("NORMAL")
    }
}

fn repeat_interval_of(event: &ResolvedEventConfig, interval: Option<u32>, settings: &Settings) -> (r:
    Option<u32>)
    ensures
        r == (if event.reminder_plan@ == "EMPHASIS"@ || event.reminder_plan@ == "FORCE"@ {
            Some(
                match interval {
                    Some(i) => i,
                    None => settings.overtime_interval_minutes,
                },
            )
        } else {
            None
        }),
{
    if str_eq(event.reminder_plan.as_str(), "EMPHASIS") || str_eq(event.reminder_plan.as_str(), "FORCE") {
        Some(
            match interval {
                Some(i) => i,
                None => settings.overtime_interval_minutes,
            },
        )
    } else {
        None
    }
}

/// The kind is a warning or a continuous event, whose times are always
/// given.
pub open spec fn timed_kind(kind: Option<String>) -> bool {
    opt_is(kind, "WARNING"@) || opt_is(kind, "CONTINUOUS"@)
}

/// A new item whose kind is chosen (not a warning or a continuous event)
/// with a plan other than repeating.
pub open spec fn plain_new(input: CreateItemInput) -> bool {
    input.event matches Some(c) && (c.kind matches Some(k) && k@ != "WARNING"@ && k@ != "CONTINUOUS"@)
        && (c.reminder_plan matches Some(pl) && pl@ != "REPEAT"@)
}

/// What is stored for a new item at `now`: the input is checked, the event
/// settings resolved against the kind defaults, the first due time and
/// reminder planned.  An item without a given time is due by default and,
/// reminding once without a kind, rolls over to the next workday.
pub fn plan_new_item(
    input: &CreateItemInput,
    settings: &Settings,
    defaults: &[EventKindDefault],
    now: i64,
) -> (r: AppResult<ItemPlan>)
    requires
        schedulable(now as int),
    ensures
        item_problem(input.title@, input.repeat_interval_minutes, input.due_at, input.event) matches Some(
            m,
        ) ==> (r matches Err(e) && is_validation(e, m)),
        r matches Ok(p) ==> {
            &&& item_problem(input.title@, input.repeat_interval_minutes, input.due_at, input.event)
                is None
            &&& p.title@ == trim_seq(input.title@)
            &&& policy_matches(p, input.repeat_interval_minutes, *settings)
            &&& p.due_source@ == (if input.due_at is Some || timed_kind(p.event.kind) {
                "EXPLICIT"@
            } else {
                "DEFAULT_EOD"@
            })
            &&& p.rollover_policy@ == (if p.event.kind is Some || input.due_at is Some
                || p.event.reminder_plan@ != "ONCE"@ {
                "NONE"@
            } else {
                "NEXT_WORKDAY_EOD"@
            })
            &&& p.time_mode@ == (if input.due_at is Some || timed_kind(p.event.kind) {
                "SPECIFIED"@
            } else {
                "DEFAULT"@
            })
            &&& p.next_reminder is Some
            &&& opt_view(p.classification_next) == (if p.event.kind is None {
                Some(p.due_at@)
            } else {
                None
            })
            &&& ((input.due_at matches Some(d) && !timed_kind(p.event.kind)) ==> chrono_rfc3339_seconds(
                input.due_at->Some_0@,
            ) == Some(p.due.utc))
        },
        // Without a given time (and not a repeat plan, a warning or a
        // continuous event): a "today must" item is due today, others at the
        // next default due time.
        r matches Ok(p) ==> (input.due_at is None && !timed_kind(p.event.kind) && p.event.reminder_plan@
            != "REPEAT"@ ==> if opt_is(p.event.kind, "TODAY_MUST"@) {
            crate::domain::must_complete_answer(now as int, *settings, p.due)
        } else {
            crate::domain::default_due_answer(now as int, *settings, p.due)
        }),
        // An item with a given time and a chosen kind and plan that need no
        // reading of the local clock is planned at that time.
        item_problem(input.title@, input.repeat_interval_minutes, input.due_at, input.event) is None
            && plain_new(*input) ==> match input.due_at {
            Some(d) => match chrono_rfc3339_seconds(d@) {
                Some(u) => crate::clock::rfc3339_range(u as int) ==> (r matches Ok(p) && p.due.utc == u
                    && p.due_at@ == chrono_rfc3339_text(u) && opt_view(p.event.kind) == opt_view(
                    input.event->Some_0.kind,
                )),
                None => true,
            },
            None => true,
        },
{
    input.validate()?;
    let event = resolve_event_config(defaults, input.event.as_ref(), input.must_complete_today)?;
    let explicit = match &input.due_at {
        Some(d) => Some(d.as_str()),
        None => None,
    };
    let (repeat_time_mode, repeat_times) = repeat_schedule_for_event(&event, explicit, settings)?;
    let due = initial_due_for_event(&event, explicit, now, settings)?;
    if !instant_ok_exec(due.utc) {
        return Err(validation("本地时间落在无效的时区切换区间"));
    }
    let due_at = format_rfc3339(due.utc);
    let timed = opt_str_is(&event.kind, "WARNING") || opt_str_is(&event.kind, "CONTINUOUS");
    let due_source = if input.due_at.is_some() || timed {
        owned("EXPLICIT")
    } else {
        owned("DEFAULT_EOD")
    };
    let rollover_policy = if event.kind.is_some() || input.due_at.is_some() || !str_eq(
        event.reminder_plan.as_str(),
        "ONCE",
    ) {
        owned("NONE")
    } else {
        owned("NEXT_WORKDAY_EOD")
    };
    let next = initial_next_reminder(&event, due.utc, now, repeat_times.as_slice())?;
    let classification_next = if event.kind.is_none() {
        Some(due_at.clone())
    } else {
        None
    };
    let time_mode = if input.due_at.is_some() || timed {
        owned("SPECIFIED")
    } else {
        owned("DEFAULT")
    };
    let kind_text = match &event.kind {
        Some(k) => Some(k.as_str()),
        None => None,
    };
    let anchor = series_anchor(kind_text, due.local_date);
    Ok(
        ItemPlan {
            completion_policy: completion_policy_of(&event),
            repeat_interval: repeat_interval_of(&event, input.repeat_interval_minutes, settings),
            title: trim(input.title.as_str()),
            due,
            due_at,
            due_source,
            rollover_policy,
            next_reminder: Some(next),
            classification_next,
            time_mode,
            repeat_time_mode,
            repeat_times,
            series_anchor_month: anchor.0,
            series_anchor_day: anchor.1,
            event,
        },
    )
}

/// An edit whose schedule needs no reading of the local clock: the kind
/// and plan are kept (and are not a warning, a continuous event or a
/// repeating plan), or a kind other than those is chosen with a plan other
/// than repeating.
pub open spec fn plain_edit(existing: Item, input: UpdateItemInput) -> bool {
    match input.event {
        None => !input.must_complete_today && !timed_kind(existing.event_kind)
            && existing.reminder_plan@ != "REPEAT"@,
        Some(c) => (c.kind matches Some(k) && k@ != "WARNING"@ && k@ != "CONTINUOUS"@) && (
        c.reminder_plan matches Some(pl) && pl@ != "REPEAT"@),
    }
}

/// The kind an edit leaves the item with.
pub open spec fn edited_kind(existing: Item, input: UpdateItemInput) -> Option<Seq<char>> {
    match input.event {
        None => opt_view(existing.event_kind),
        Some(c) => opt_view(c.kind),
    }
}

/// What is stored when an item is edited at `now`: the input is checked,
/// an item in the recycle bin is refused, and the event settings are kept
/// unless new ones are given.  An overdue item keeps its due time unless
/// its kind changes; it reminds again only while open and not paused, and
/// an open item without a kind is asked for one at its due time.  The
/// time mode is kept when neither the due time nor the kind changed.
pub fn plan_item_update(
    existing: &Item,
    input: &UpdateItemInput,
    settings: &Settings,
    defaults: &[EventKindDefault],
    now: i64,
    now_text: &str,
) -> (r: AppResult<ItemPlan>)
    requires
        schedulable(now as int),
    ensures
        item_problem(input.title@, input.repeat_interval_minutes, Some(input.due_at), input.event) matches Some(
            m,
        ) ==> (r matches Err(e) && is_validation(e, m)),
        item_problem(input.title@, input.repeat_interval_minutes, Some(input.due_at), input.event)
            is None && existing.status@ == "DELETED"@ ==> (r matches Err(e) && is_validation(
            e,
            "请先从回收站恢复事项再编辑"@,
        )),
        r matches Ok(p) ==> {
            &&& item_problem(input.title@, input.repeat_interval_minutes, Some(input.due_at), input.event)
                is None
            &&& existing.status@ != "DELETED"@
            &&& p.title@ == trim_seq(input.title@)
            &&& policy_matches(p, input.repeat_interval_minutes, *settings)
            &&& p.due_source@ == "EXPLICIT"@
            &&& p.rollover_policy@ == "NONE"@
            &&& !(!lex_le(now_text@, existing.due_at@) && opt_view(existing.event_kind) == opt_view(
                p.event.kind,
            ) && existing.due_at@ != p.due_at@)
            &&& (p.next_reminder is Some <==> (existing.status@ == "OPEN"@ && !existing.reminder_paused))
            &&& opt_view(p.classification_next) == (if p.event.kind is None && existing.status@
                == "OPEN"@ {
                Some(p.due_at@)
            } else {
                None
            })
            &&& p.time_mode@ == (if input.due_at@ == existing.due_at@ && opt_view(p.event.kind)
                == opt_view(existing.event_kind) {
                existing.time_mode@
            } else {
                "SPECIFIED"@
            })
            &&& (input.event is None && !input.must_complete_today ==> opt_view(p.event.kind)
                == opt_view(existing.event_kind) && p.event.reminder_plan@
                == existing.reminder_plan@)
        },
        // An edit that keeps the kind and plan of an overdue item (not a
        // warning or a continuous event) and moves its due time is refused.
        item_problem(input.title@, input.repeat_interval_minutes, Some(input.due_at), input.event)
            is None && existing.status@ != "DELETED"@ && input.event is None
            && !input.must_complete_today && !timed_kind(existing.event_kind) ==> match chrono_rfc3339_seconds(
            input.due_at@,
        ) {
            Some(u) => crate::clock::rfc3339_range(u as int) && !lex_le(now_text@, existing.due_at@)
                && chrono_rfc3339_text(u) != existing.due_at@ ==> (r matches Err(e) && is_validation(
                e,
                OVERDUE_DUE_FIXED@,
            )),
            None => true,
        },
        // An edit that needs no reading of the local clock succeeds, unless
        // it moves the due time of an overdue item whose kind it keeps.
        item_problem(input.title@, input.repeat_interval_minutes, Some(input.due_at), input.event)
            is None && existing.status@ != "DELETED"@ && plain_edit(*existing, *input) ==> match chrono_rfc3339_seconds(
            input.due_at@,
        ) {
            Some(u) => crate::clock::rfc3339_range(u as int) ==> if !lex_le(now_text@, existing.due_at@) && edited_kind(*existing, *input)
                == opt_view(existing.event_kind) && chrono_rfc3339_text(u) != existing.due_at@ {
                r matches Err(e) && is_validation(e, OVERDUE_DUE_FIXED@)
            } else {
                r matches Ok(p) && p.due.utc == u && p.due_at@ == chrono_rfc3339_text(u) && opt_view(
                    p.event.kind,
                ) == edited_kind(*existing, *input)
            },
            None => true,
        },
{
    input.validate()?;
    if str_eq(existing.status.as_str(), "DELETED") {
        return Err(validation("请先从回收站恢复事项再编辑"));
    }
    let event = if input.event.is_none() && !input.must_complete_today {
        ResolvedEventConfig::from_item(existing)
    } else {
        resolve_event_config(defaults, input.event.as_ref(), input.must_complete_today)?
    };
    let (repeat_time_mode, repeat_times) = repeat_schedule_for_event(
        &event,
        Some(input.due_at.as_str()),
        settings,
    )?;
    let due = initial_due_for_event(&event, Some(input.due_at.as_str()), now, settings)?;
    if !instant_ok_exec(due.utc) {
        return Err(validation("本地时间落在无效的时区切换区间"));
    }
    let due_at = format_rfc3339(due.utc);
    let same_kind = match (&existing.event_kind, &event.kind) {
        (Some(a), Some(b)) => str_eq(a.as_str(), b.as_str()),
        (None, None) => true,
        _ => false,
    };
    if !text_le(now_text, existing.due_at.as_str()) && same_kind && !str_eq(
        existing.due_at.as_str(),
        due_at.as_str(),
    ) {
        return Err(validation(OVERDUE_DUE_FIXED));
    }
    let open = str_eq(existing.status.as_str(), "OPEN");
    let next_reminder = if open && !existing.reminder_paused {
        Some(initial_next_reminder(&event, due.utc, now, repeat_times.as_slice())?)
    } else {
        None
    };
    let classification_next = if event.kind.is_none() && open {
        Some(due_at.clone())
    } else {
        None
    };
    let time_mode = if str_eq(input.due_at.as_str(), existing.due_at.as_str()) && same_kind {
        existing.time_mode.clone()
    } else {
        owned("SPECIFIED")
    };
    let kind_text = match &event.kind {
        Some(k) => Some(k.as_str()),
        None => None,
    };
    let anchor = series_anchor(kind_text, due.local_date);
    Ok(
        ItemPlan {
            completion_policy: completion_policy_of(&event),
            repeat_interval: repeat_interval_of(&event, input.repeat_interval_minutes, settings),
            title: trim(input.title.as_str()),
            due,
            due_at,
            due_source: owned("EXPLICIT"),
            rollover_policy: owned("NONE"),
            next_reminder,
            classification_next,
            time_mode,
            repeat_time_mode,
            repeat_times,
            series_anchor_month: anchor.0,
            series_anchor_day: anchor.1,
            event,
        },
    )
}

// ---------------------------------------------------------------------------
// Items whose due time follows the default
// ---------------------------------------------------------------------------
/// An open item of the normal policy whose due time came from the default
/// (or a roll-over of it).
pub open spec fn follows_default_spec(status: Seq<char>, completion_policy: Seq<char>, due_source: Seq<char>) -> bool {
    status == "OPEN"@ && completion_policy == "NORMAL"@ && (due_source == "DEFAULT_EOD"@
        || due_source == "ROLLED_OVER"@)
}

/// Whether an item moves with the default due time when the user changes
/// it for existing items.
pub fn follows_default_time(status: &str, completion_policy: &str, due_source: &str) -> (r: bool)
    ensures
        r == follows_default_spec(status@, completion_policy@, due_source@),
{
    str_eq(status, "OPEN") && str_eq(completion_policy, "NORMAL") && (str_eq(due_source, "DEFAULT_EOD")
        || str_eq(due_source, "ROLLED_OVER"))
}

/// The message when an item's stored local date cannot be read.
pub const BAD_LOCAL_DATE: &'static str = "已有事项的本地日期数据损坏";

/// The due time such an item moves to: the default time on its own local
/// day while that is still ahead of `now`, else the next default due time.
/// Whether the time on its own day is ahead depends on the machine's time
/// zone, so the contract gives the two outcomes, not which one is taken.
pub fn default_time_update(due_local_date: &str, settings: &Settings, now: i64) -> (r: AppResult<DueMoment>)
    requires
        crate::clock::instant_ok(now as int),
    ensures
        crate::clock::chrono_parse_ymd(due_local_date@) is None ==> (r matches Err(e) && is_validation(
            e,
            BAD_LOCAL_DATE@,
        )),
        crate::clock::chrono_parse_ymd(due_local_date@) is Some && crate::clock::chrono_parse_hm(
            settings.default_due_time@,
        ) is None ==> (r matches Err(e) && is_validation(
            e,
            crate::domain::bad_time_message(settings.default_due_time@),
        )),
        r matches Ok(d) ==> crate::clock::chrono_parse_hm(settings.default_due_time@) == Some(
            d.local_time,
        ) && ((crate::clock::chrono_parse_ymd(due_local_date@) == Some(
            crate::clock::date_tuple(d.local_date),
        ) && d.utc > now) || exists|l: crate::clock::LocalDateTime|
            crate::clock::supported_local(l) && crate::domain::default_due_date_spec(
                l,
                d.local_time,
                settings.workdays@,
            ) == Some(#[trigger] crate::clock::date_tuple(d.local_date))),
{
    let date = match crate::clock::parse_ymd(due_local_date) {
        Some(d) => d,
        None => {
            return Err(validation(BAD_LOCAL_DATE));
        },
    };
    let target = crate::domain::parse_time(settings.default_due_time.as_str())?;
    let candidate = crate::domain::due_for_local_date(date, target)?;
    if candidate.utc <= now {
        crate::domain::next_default_due(now, settings)
    } else {
        Ok(candidate)
    }
}

/// An item that rolls over to the next workday's default time: open, of
/// the normal policy, reminded once, set to roll over, due by default, and
/// due on a local day before `today` (days `YYYY-MM-DD`, compared as text).
pub open spec fn rolls_over_spec(
    status: Seq<char>,
    completion_policy: Seq<char>,
    reminder_plan: Seq<char>,
    rollover_policy: Seq<char>,
    due_source: Seq<char>,
    due_local_date: Seq<char>,
    today: Seq<char>,
) -> bool {
    &&& status == "OPEN"@
    &&& completion_policy == "NORMAL"@
    &&& reminder_plan == "ONCE"@
    &&& rollover_policy == "NEXT_WORKDAY_EOD"@
    &&& (due_source == "DEFAULT_EOD"@ || due_source == "ROLLED_OVER"@)
    &&& crate::summary::lex_lt(due_local_date, today)
}

/// Whether an item rolls over on `today`.
pub fn rolls_over(
    status: &str,
    completion_policy: &str,
    reminder_plan: &str,
    rollover_policy: &str,
    due_source: &str,
    due_local_date: &str,
    today: &str,
) -> (r: bool)
    ensures
        r == rolls_over_spec(
            status@,
            completion_policy@,
            reminder_plan@,
            rollover_policy@,
            due_source@,
            due_local_date@,
            today@,
        ),
{
    str_eq(status, "OPEN") && str_eq(completion_policy, "NORMAL") && str_eq(reminder_plan, "ONCE")
        && str_eq(rollover_policy, "NEXT_WORKDAY_EOD") && (str_eq(due_source, "DEFAULT_EOD")
        || str_eq(due_source, "ROLLED_OVER")) && text_le(due_local_date, today) && !str_eq(
        due_local_date,
        today,
    )
}

/// A "today must" item given a default due time on a later local day (as
/// an older version could): it is brought back to now.
pub open spec fn misplaced_must_complete_spec(
    status: Seq<char>,
    completion_policy: Seq<char>,
    due_source: Seq<char>,
    due_local_date: Seq<char>,
    today: Seq<char>,
) -> bool {
    &&& status == "OPEN"@
    &&& completion_policy == "MUST_COMPLETE_TODAY"@
    &&& due_source == "DEFAULT_EOD"@
    &&& crate::summary::lex_lt(today, due_local_date)
}

/// Whether a "today must" item is misplaced on a later day.
pub fn misplaced_must_complete(
    status: &str,
    completion_policy: &str,
    due_source: &str,
    due_local_date: &str,
    today: &str,
) -> (r: bool)
    ensures
        r == misplaced_must_complete_spec(status@, completion_policy@, due_source@, due_local_date@, today@),
{
    str_eq(status, "OPEN") && str_eq(completion_policy, "MUST_COMPLETE_TODAY") && str_eq(
        due_source,
        "DEFAULT_EOD",
    ) && text_le(today, due_local_date) && !str_eq(today, due_local_date)
}

} // verus!
