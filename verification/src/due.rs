//! One pass over the reminders that have come due: which are dropped,
//! which are delivered under which key, how each item's next reminder is
//! written back, and how events that wait for a kind are gathered.
use vstd::prelude::*;

use crate::clock::{
    chrono_format_ymd, chrono_rfc3339_seconds, format_hm, format_ymd, hm_text, instant_ok,
    parse_rfc3339, schedulable, supported_local, timestamp_in_range, to_local, LocalDateTime,
};
use crate::domain::{opt_is, opt_str_is, Settings};
use crate::error::AppResult;
use crate::records::{ClassificationNotification, DueNotification};
use crate::schedule::{copy_opt, next_after_delivery, opt_view, should_stop_without_delivery, DueRow};
use crate::text::{concat, decimal_seq, owned, str_eq, u64_to_string};

verus! {

/// How long a deleted item stays in the recycle bin: thirty days.
pub const RECYCLE_RETENTION_SECONDS: i64 = 2_592_000;

/// After how long a claimed, unconfirmed reminder is handed out again.
pub const STALE_CLAIM_SECONDS: i64 = 120;

/// The two cut-off instants of a pass at `now`: deleted items older than
/// the first are purged, and claims older than the second are re-sent.
pub fn process_cutoffs(now: i64) -> (r: (i64, i64))
    requires
        instant_ok(now as int),
    ensures
        r.0 == now - RECYCLE_RETENTION_SECONDS,
        r.1 == now - STALE_CLAIM_SECONDS,
{
    (now - RECYCLE_RETENTION_SECONDS, now - STALE_CLAIM_SECONDS)
}

/// The key under which one reminder of one item revision is claimed:
/// `id:scheduled_for:revision`.
pub open spec fn reminder_key_spec(id: Seq<char>, scheduled_for: Seq<char>, revision: u32) -> Seq<
    char,
> {
    id + ":"@ + scheduled_for + ":"@ + decimal_seq(revision as nat)
}

/// The claim key of a due reminder; the same reminder of the same revision
/// always gets the same key, so it is claimed at most once.
pub fn reminder_idempotency_key(id: &str, scheduled_for: &str, revision: u32) -> (r: String)
    ensures
        r@ == reminder_key_spec(id@, scheduled_for@, revision),
{
    let a = concat(id, ":");
    let b = concat(a.as_str(), scheduled_for);
    let c = concat(b.as_str(), ":");
    let d = u64_to_string(revision as u64);
    let r = concat(c.as_str(), d.as_str());
    proof {
        assert(r@ =~= reminder_key_spec(id@, scheduled_for@, revision));
    }
    r
}

/// The key under which one classification reminder is claimed:
/// `classification:item:scheduled_for:revision`.
pub open spec fn classification_key_spec(
    item_id: Seq<char>,
    scheduled_for: Seq<char>,
    revision: u32,
) -> Seq<char> {
    "classification:"@ + reminder_key_spec(item_id, scheduled_for, revision)
}

/// The claim key of a classification reminder.
pub fn classification_idempotency_key(item_id: &str, scheduled_for: &str, revision: u32) -> (r:
    String)
    ensures
        r@ == classification_key_spec(item_id@, scheduled_for@, revision),
{
    let key = reminder_idempotency_key(item_id, scheduled_for, revision);
    let r = concat("classification:", key.as_str());
    proof {
        assert(r@ =~= classification_key_spec(item_id@, scheduled_for@, revision));
    }
    r
}

/// How the daily tally of an emphasis reminder moves on a delivery on the
/// local day `today`: the count goes up by one (never past the top) on the
/// same day and restarts at one on a new day; other plans keep theirs.
pub open spec fn emphasis_tally_spec(
    plan: Seq<char>,
    count: u32,
    date: Option<Seq<char>>,
    today: Seq<char>,
) -> (u32, Option<Seq<char>>) {
    if plan == "EMPHASIS"@ {
        let next: u32 = if date == Some(today) {
            if count == u32::MAX {
                count
            } else {
                (count + 1) as u32
            }
        } else {
            1
        };
        (next, Some(today))
    } else {
        (count, date)
    }
}

/// The emphasis count and its day after a delivery on `today`.
pub fn emphasis_tally(row: &DueRow, today: &str) -> (r: (u32, Option<String>))
    ensures
        r.0 == emphasis_tally_spec(
            row.reminder_plan@,
            row.emphasis_count,
            opt_view(row.emphasis_count_local_date),
            today@,
        ).0,
        opt_view(r.1) == emphasis_tally_spec(
            row.reminder_plan@,
            row.emphasis_count,
            opt_view(row.emphasis_count_local_date),
            today@,
        ).1,
{
    if str_eq(row.reminder_plan.as_str(), "EMPHASIS") {
        let same_day = opt_str_is(&row.emphasis_count_local_date, today);
        let count = if same_day {
            if row.emphasis_count == u32::MAX {
                row.emphasis_count
            } else {
                row.emphasis_count + 1
            }
        } else {
            1
        };
        proof {
            assert(same_day == (opt_view(row.emphasis_count_local_date) == Some(today@)));
        }
        (count, Some(owned(today)))
    } else {
        (row.emphasis_count, copy_opt(&row.emphasis_count_local_date))
    }
}

/// What is written back to an item whose reminder was delivered.
#[derive(Debug, Clone, Copy, PartialEq, Eq, Structural)]
pub enum ItemUpdate {
    /// A series that reminds once moves on to its next occurrence: the due
    /// time and the reminder both move there.
    MoveOccurrence { next: i64 },
    /// A series that reminds once and has no next occurrence: nothing is
    /// written.
    Keep,
    /// The reminder time is replaced; a series marks its current occurrence
    /// as pending.
    Reschedule { next: Option<i64>, series_pending: bool },
}

/// The event kind is a monthly or yearly series.
pub open spec fn is_series(kind: Option<String>) -> bool {
    opt_is(kind, "MONTHLY"@) || opt_is(kind, "YEARLY"@)
}

/// The write-back for a delivered reminder whose next reminder is `next`.
pub open spec fn item_update_spec(row: DueRow, next: Option<i64>) -> ItemUpdate {
    if is_series(row.event_kind) && row.reminder_plan@ == "ONCE"@ {
        match next {
            Some(t) => ItemUpdate::MoveOccurrence { next: t },
            None => ItemUpdate::Keep,
        }
    } else {
        ItemUpdate::Reschedule { next, series_pending: is_series(row.event_kind) }
    }
}

/// How a delivered reminder is recorded.
#[derive(Debug, Clone)]
pub struct DeliveryPlan {
    /// The claim key of the delivery.
    pub key: String,
    /// The item's next reminder, if any.
    pub next: Option<i64>,
    pub emphasis_count: u32,
    pub emphasis_date: Option<String>,
    pub update: ItemUpdate,
}

/// The plan records the delivery of `row` on the local day `today` with
/// the next reminder the plan carries.
pub open spec fn plan_matches(p: DeliveryPlan, row: DueRow, today: Seq<char>) -> bool {
    let tally = emphasis_tally_spec(
        row.reminder_plan@,
        row.emphasis_count,
        opt_view(row.emphasis_count_local_date),
        today,
    );
    &&& p.key@ == reminder_key_spec(row.id@, row.scheduled_for@, row.revision)
    &&& p.emphasis_count == tally.0
    &&& opt_view(p.emphasis_date) == tally.1
    &&& p.update == item_update_spec(row, p.next)
}

/// The delivery plan of `row` once its next reminder `next` is known.
pub fn delivery_plan(row: &DueRow, next: Option<i64>, today: &str) -> (r: DeliveryPlan)
    ensures
        r.next == next,
        plan_matches(r, *row, today@),
{
    let key = reminder_idempotency_key(row.id.as_str(), row.scheduled_for.as_str(), row.revision);
    let (emphasis_count, emphasis_date) = emphasis_tally(row, today);
    let series = opt_str_is(&row.event_kind, "MONTHLY") || opt_str_is(&row.event_kind, "YEARLY");
    let update = if series && str_eq(row.reminder_plan.as_str(), "ONCE") {
        match next {
            Some(t) => ItemUpdate::MoveOccurrence { next: t },
            None => ItemUpdate::Keep,
        }
    } else {
        ItemUpdate::Reschedule { next, series_pending: series }
    };
    DeliveryPlan { key, next, emphasis_count, emphasis_date, update }
}

/// What becomes of one due reminder.
#[derive(Debug, Clone)]
pub enum DueDecision {
    /// The reminder has expired: it is cleared without a delivery.
    Drop,
    /// The reminder is delivered and recorded as planned.
    Deliver(DeliveryPlan),
}

/// Decides one due reminder at `now` (local day `today`): dropped when it
/// should stop without a delivery, otherwise delivered with the next
/// reminder the schedule gives.  An unreadable stored value is an error.
pub fn decide_due_row(row: &DueRow, now: i64, settings: &Settings, today: &str) -> (r: AppResult<
    DueDecision,
>)
    requires
        schedulable(now as int),
    ensures
        r matches Ok(DueDecision::Deliver(p)) ==> plan_matches(p, *row, today@) && (p.next matches Some(
            t,
        ) ==> timestamp_in_range(t as int)),
        chrono_rfc3339_seconds(row.scheduled_for@) is None && !(r matches Ok(DueDecision::Drop))
            ==> r is Err,
        // Only a reminder that expires at day end, or a continuous event with
        // an end, is dropped; one that expires is dropped exactly when its due
        // day lies before the local day of `now`.
        r matches Ok(DueDecision::Drop) ==> crate::schedule::expires_at_day_end(*row) || (opt_is(
            row.event_kind,
            "CONTINUOUS"@,
        ) && row.end_at is Some),
        crate::schedule::expires_at_day_end(*row) && crate::clock::chrono_parse_ymd(row.due_local_date@)
            is Some && r is Ok ==> exists|n: LocalDateTime|
            #![trigger crate::clock::within_offset(n, now as int)]
            crate::clock::within_offset(n, now as int) && supported_local(n) && (r matches Ok(
                DueDecision::Drop,
            )) == crate::schedule::date_before(
                crate::schedule::stored_date(row.due_local_date@),
                n.date,
            ),
        // A delivered reminder carries the next reminder its plan gives.
        !opt_is(row.event_kind, "WARNING"@) && !opt_is(row.event_kind, "CONTINUOUS"@)
            && row.reminder_plan@ == "REPEAT"@ ==> (r matches Ok(DueDecision::Deliver(p)) ==> (p.next matches Some(
            v,
        ) && crate::domain::slot_answer(now as int, crate::schedule::row_repeat_times(*row), v as int))),
        !opt_is(row.event_kind, "WARNING"@) && !opt_is(row.event_kind, "CONTINUOUS"@)
            && row.reminder_plan@ == "EMPHASIS"@ ==> (r matches Ok(DueDecision::Deliver(p)) ==> (p.next matches Some(
            v,
        ) && crate::schedule::emphasis_answer(*row, *settings, now as int, v as int))),
        !opt_is(row.event_kind, "WARNING"@) && !opt_is(row.event_kind, "CONTINUOUS"@)
            && row.reminder_plan@ == "ONCE"@ && (opt_is(row.event_kind, "MONTHLY"@) || opt_is(
            row.event_kind,
            "YEARLY"@,
        )) ==> (r matches Ok(DueDecision::Deliver(p)) ==> (p.next matches Some(v) && v > now && (
        chrono_rfc3339_seconds(row.scheduled_for@) matches Some(s) && crate::schedule::series_answer(
            s as int,
            now as int,
            opt_is(row.event_kind, "MONTHLY"@),
            row.series_anchor_month,
            row.series_anchor_day,
            v as int,
        )))),
        !opt_is(row.event_kind, "WARNING"@) && !opt_is(row.event_kind, "CONTINUOUS"@)
            && row.reminder_plan@ == "CUSTOM"@ && row.cadence_value is Some && row.cadence_unit is Some
            ==> (r matches Ok(DueDecision::Deliver(p)) ==> (p.next matches Some(v) && v > now && (
        chrono_rfc3339_seconds(row.scheduled_for@) matches Some(s) && crate::schedule::calendar_answer(
            s as int,
            now as int,
            row.cadence_value->Some_0,
            row.cadence_unit->Some_0@,
            v as int,
        )))),
        // A reminder that does not expire at day end keeps coming back until
        // the item is done or paused: a repeating, emphasis or force plan is
        // never dropped and always carries a next reminder.
        !crate::schedule::expires_at_day_end(*row) && !opt_is(row.event_kind, "WARNING"@) && !opt_is(
            row.event_kind,
            "CONTINUOUS"@,
        ) && (row.reminder_plan@ == "REPEAT"@ || row.reminder_plan@ == "EMPHASIS"@
            || row.reminder_plan@ == "FORCE"@) ==> (r is Ok ==> (r matches Ok(DueDecision::Deliver(p))
            && p.next is Some)),
        // A plan with no further reminder is delivered without one.
        crate::schedule::row_times_readable(*row) && !crate::schedule::expires_at_day_end(*row)
            && crate::schedule::plan_without_next(*row, *settings) ==> (r matches Ok(
            DueDecision::Deliver(p),
        ) && p.next is None),
        // A force plan outside quiet hours is delivered and comes back after its interval.
        crate::schedule::row_times_readable(*row) && !crate::schedule::expires_at_day_end(*row)
            && crate::schedule::force_outside_quiet(*row, *settings) ==> (r matches Ok(
            DueDecision::Deliver(p),
        ) && p.next == Some(
            (now + crate::schedule::repeat_interval_of(*row, *settings) * 60) as i64,
        )),
{
    if should_stop_without_delivery(row, now)? {
        return Ok(DueDecision::Drop);
    }
    let next = next_after_delivery(row, now, settings)?;
    Ok(DueDecision::Deliver(delivery_plan(row, next, today)))
}

/// Decides every due reminder of a pass at `now` (local day `today`), in the
/// order the store lists them: each row is dropped or delivered as
/// `decide_due_row` decides it; the first unreadable row stops the pass.
pub fn decide_due_rows(rows: &[DueRow], now: i64, settings: &Settings, today: &str) -> (r: AppResult<
    Vec<DueDecision>,
>)
    requires
        schedulable(now as int),
    ensures
        r matches Ok(ds) ==> {
            &&& ds@.len() == rows@.len()
            &&& forall|i: int|
                0 <= i < rows@.len() ==> match #[trigger] ds@[i] {
                    DueDecision::Drop => crate::schedule::expires_at_day_end(rows@[i]) || (opt_is(
                        rows@[i].event_kind,
                        "CONTINUOUS"@,
                    ) && rows@[i].end_at is Some),
                    DueDecision::Deliver(p) => plan_matches(p, rows@[i], today@) && (p.next matches Some(
                        t,
                    ) ==> timestamp_in_range(t as int)),
                }
        },
{
    let mut out: Vec<DueDecision> = Vec::new();
    let mut i: usize = 0;
    while i < rows.len()
        invariant
            i <= rows@.len(),
            schedulable(now as int),
            out@.len() == i,
            forall|k: int|
                0 <= k < i ==> match #[trigger] out@[k] {
                    DueDecision::Drop => crate::schedule::expires_at_day_end(rows@[k]) || (opt_is(
                        rows@[k].event_kind,
                        "CONTINUOUS"@,
                    ) && rows@[k].end_at is Some),
                    DueDecision::Deliver(p) => plan_matches(p, rows@[k], today@) && (p.next matches Some(
                        t,
                    ) ==> timestamp_in_range(t as int)),
                },
        decreases rows@.len() - i,
    {
        let d = decide_due_row(&rows[i], now, settings, today)?;
        out.push(d);
        i = i + 1;
    }
    Ok(out)
}

/// The local date and time of day at which a stored reminder instant
/// falls, as `YYYY-MM-DD` and `HH:MM`; `None` when the text is not a
/// readable RFC 3339 time.
pub fn scheduled_local_fields(value: &str) -> (r: Option<(String, String)>)
    ensures
        r is Some <==> chrono_rfc3339_seconds(value@) is Some,
        r matches Some((d, t)) ==> exists|l: LocalDateTime|
            supported_local(l) && d@ == chrono_format_ymd(l.date.year, l.date.month, l.date.day)
                && #[trigger] hm_text(l.seconds as int) == t@,
{
    match parse_rfc3339(value) {
        None => None,
        Some(secs) => {
            let local = to_local(secs);
            let d = format_ymd(local.date);
            let t = format_hm(local.seconds);
            Some((d, t))
        },
    }
}

/// The notification for a claimed reminder: shown at its scheduled local
/// date and time when known, else at the item's stored due date and time.
pub fn due_notification(
    row: DueRow,
    event_id: String,
    scheduled_local: Option<(String, String)>,
    tag_ids: Vec<String>,
) -> (r: DueNotification)
    ensures
        r.event_id == event_id,
        r.item_id == row.id,
        r.title == row.title,
        r.completion_policy == row.completion_policy,
        r.event_kind == row.event_kind,
        r.reminder_plan == row.reminder_plan,
        r.tag_ids == tag_ids,
        match scheduled_local {
            Some((d, t)) => r.due_local_date == d && r.due_local_time == t,
            None => r.due_local_date == row.due_local_date && r.due_local_time == row.due_local_time,
        },
{
    let (due_local_date, due_local_time) = match scheduled_local {
        Some((d, t)) => (d, t),
        None => (row.due_local_date, row.due_local_time),
    };
    DueNotification {
        event_id,
        item_id: row.id,
        title: row.title,
        due_local_date,
        due_local_time,
        completion_policy: row.completion_policy,
        event_kind: row.event_kind,
        reminder_plan: row.reminder_plan,
        tag_ids,
    }
}

/// Gathers the classification reminders claimed in one pass, each an
/// `(event_id, item_id)` pair, into one notification: none when nothing was
/// claimed, naming the item when there is exactly one, and otherwise only
/// counting them.
pub fn classification_batch(claimed: Vec<(String, String)>) -> (r: Option<
    ClassificationNotification,
>)
    ensures
        r is None <==> claimed@.len() == 0,
        r matches Some(n) ==> {
            &&& n.count == claimed@.len()
            &&& n.event_ids@.len() == claimed@.len()
            &&& forall|i: int| 0 <= i < claimed@.len() ==> #[trigger] n.event_ids@[i] == claimed@[i].0
            &&& claimed@.len() == 1 ==> n.item_id == Some(claimed@[0].1)
            &&& claimed@.len() > 1 ==> n.item_id is None
        },
{
    let count = claimed.len();
    if count == 0 {
        return None;
    }
    let mut event_ids: Vec<String> = Vec::new();
    let mut first_item: Option<String> = None;
    let mut i: usize = 0;
    while i < count
        invariant
            count == claimed@.len(),
            i <= count,
            event_ids@.len() == i,
            forall|j: int| 0 <= j < i ==> #[trigger] event_ids@[j] == claimed@[j].0,
            i > 0 ==> first_item == Some(claimed@[0].1),
        decreases count - i,
    {
        let event_id = claimed[i].0.clone();
        if i == 0 {
            first_item = Some(claimed[i].1.clone());
        }
        event_ids.push(event_id);
        i = i + 1;
    }
    let item_id = if count == 1 {
        first_item
    } else {
        None
    };
    Some(ClassificationNotification { event_ids, item_id, count })
}

/// Whether a due reminder gets an e-mail: only an item routed to e-mail by
/// one of its tags, and (unless it must be completed today and such items
/// repeat by mail) only when it has had no e-mail before.
pub open spec fn email_claim_wanted(
    routed: bool,
    completion_policy: Seq<char>,
    repeat_must_complete: bool,
    already_scheduled: bool,
) -> bool {
    routed && ((completion_policy == "MUST_COMPLETE_TODAY"@ && repeat_must_complete)
        || !already_scheduled)
}

/// Whether a due reminder gets an e-mail.
pub fn email_claim_needed(
    routed: bool,
    completion_policy: &str,
    repeat_must_complete: bool,
    already_scheduled: bool,
) -> (r: bool)
    ensures
        r == email_claim_wanted(routed, completion_policy@, repeat_must_complete, already_scheduled),
{
    if !routed {
        return false;
    }
    if !str_eq(completion_policy, "MUST_COMPLETE_TODAY") || !repeat_must_complete {
        return !already_scheduled;
    }
    true
}

/// The claim key of a reminder's e-mail: `event_id:email`.
pub fn email_claim_key(event_id: &str) -> (r: String)
    ensures
        r@ == event_id@ + ":email"@,
{
    concat(event_id, ":email")
}

// ---------------------------------------------------------------------------
// After a delivery attempt
// ---------------------------------------------------------------------------
/// The reminder time after the `failures`-th failed system notification
/// (counting from zero): a retry a few minutes on, unless the item is due
/// again sooner; after three failures the reminder time is left alone.
pub open spec fn retry_after_failure_spec(failures: u32, now: int, next: Option<i64>) -> Option<int> {
    match crate::schedule::notification_retry_delay_spec(failures) {
        Some(delay) => {
            let retry = now + delay * 60;
            match next {
                Some(n) => if n <= retry {
                    Some(n as int)
                } else {
                    Some(retry)
                },
                None => Some(retry),
            }
        },
        None => match next {
            Some(n) => Some(n as int),
            None => None,
        },
    }
}

/// The item's reminder time after a failed system notification.
pub fn retry_after_failure(failures: u32, now: i64, next: Option<i64>) -> (r: Option<i64>)
    requires
        schedulable(now as int),
    ensures
        match r {
            Some(t) => retry_after_failure_spec(failures, now as int, next) == Some(t as int),
            None => retry_after_failure_spec(failures, now as int, next) is None,
        },
{
    match crate::schedule::notification_retry_delay(failures) {
        Some(delay) => {
            let retry = now + (delay as i64) * 60;
            match next {
                Some(n) => if n <= retry {
                    Some(n)
                } else {
                    Some(retry)
                },
                None => Some(retry),
            }
        },
        None => next,
    }
}

/// The results a prompt to choose a kind can be given.
pub open spec fn classification_result_spec(result: Seq<char>) -> bool {
    result == "SUBMITTED"@ || result == "FAILED"@ || result == "DISABLED"@
}

/// The message for any other result.
pub const BAD_CLASSIFICATION_RESULT: &'static str = "分类提醒投递状态无效";

/// Checks the result recorded for a prompt to choose a kind.
pub fn check_classification_result(result: &str) -> (r: AppResult<()>)
    ensures
        classification_result_spec(result@) ==> r is Ok,
        !classification_result_spec(result@) ==> (r matches Err(e) && crate::error::is_validation(
            e,
            BAD_CLASSIFICATION_RESULT@,
        )),
{
    if str_eq(result, "SUBMITTED") || str_eq(result, "FAILED") || str_eq(result, "DISABLED") {
        Ok(())
    } else {
        Err(crate::error::validation(BAD_CLASSIFICATION_RESULT))
    }
}

/// A reminder event that reached the person, or was on its way: claimed,
/// submitted, failed or turned off.
pub open spec fn reached_spec(result: Seq<char>) -> bool {
    result == "SUBMITTED"@ || result == "FAILED"@ || result == "DISABLED"@ || result == "CLAIMED"@
}

/// Whether an event's result counts as having reached the person.
pub fn event_reached(result: &str) -> (r: bool)
    ensures
        r == reached_spec(result@),
{
    str_eq(result, "SUBMITTED") || str_eq(result, "FAILED") || str_eq(result, "DISABLED") || str_eq(
        result,
        "CLAIMED",
    )
}

/// An item waits in the reminder center: it is open, its reminders are not
/// paused, it has not been acknowledged, and one of its reminders due by
/// now has reached the person.
pub fn in_reminder_center(status: &str, paused: bool, acknowledged: bool, reached: bool) -> (r: bool)
    ensures
        r == (status@ == "OPEN"@ && !paused && !acknowledged && reached),
{
    str_eq(status, "OPEN") && !paused && !acknowledged && reached
}

} // verus!
