//! Whole reminder lifecycles: an item is planned as the store would create
//! it, and each run of the scheduler decides its due reminder.
use chrono::{DateTime, Local, TimeZone, Utc};
use shanji::domain::{
    default_event_kind_defaults, CreateItemInput, EventConfigurationInput, Item, Settings,
    UpdateItemInput,
};
use shanji::due::{
    check_classification_result, decide_due_row, email_claim_key, email_claim_needed, event_reached,
    in_reminder_center, process_cutoffs, reminder_idempotency_key, retry_after_failure, DueDecision,
    ItemUpdate,
};
use shanji::item_rules::{
    acknowledge_change, completion_change, default_time_update, follows_default_time,
    misplaced_must_complete, pause_change, plan_item_update, plan_new_item, rolls_over,
    series_completion, snooze_until, ItemPlan, SeriesCompletion,
};
use shanji::taxonomy::unique_tag_ids;
use shanji::schedule::{email_retry_at, notification_retry_delay, DueRow};

fn settings() -> Settings {
    Settings {
        default_due_time: "18:00".into(),
        repeat_default_times: vec!["10:00".into(), "17:00".into()],
        workdays: vec![1, 2, 3, 4, 5],
        overtime_interval_minutes: 30,
        quiet_hours_enabled: false,
        quiet_start: "22:30".into(),
        quiet_end: "07:30".into(),
        global_shortcut: "CommandOrControl+Shift+Space".into(),
        notifications_enabled: true,
        autostart_enabled: false,
        persistent_notifications_enabled: true,
        overlay_reminders_enabled: false,
        repeat_unacknowledged_enabled: false,
        unacknowledged_repeat_minutes: 60,
        smtp_enabled: false,
        smtp_host: String::new(),
        smtp_port: 465,
        smtp_security: "tls".into(),
        smtp_from: String::new(),
        smtp_to: String::new(),
        smtp_username: String::new(),
        smtp_repeat_must_complete: false,
        event_kind_defaults: default_event_kind_defaults(),
    }
}

fn at_local(year: i32, month: u32, day: u32, hour: u32, minute: u32) -> i64 {
    Local.with_ymd_and_hms(year, month, day, hour, minute, 0).unwrap().timestamp()
}

fn utc(t: i64) -> DateTime<Utc> {
    DateTime::<Utc>::from_timestamp(t, 0).unwrap()
}

fn text(t: i64) -> String {
    utc(t).to_rfc3339()
}

fn seconds(value: &str) -> i64 {
    DateTime::parse_from_rfc3339(value).unwrap().timestamp()
}

fn local_day(t: i64) -> String {
    utc(t).with_timezone(&Local).format("%Y-%m-%d").to_string()
}

fn local_time(t: i64) -> String {
    utc(t).with_timezone(&Local).format("%H:%M").to_string()
}

fn event(kind: &str, reminder_plan: &str) -> EventConfigurationInput {
    EventConfigurationInput {
        kind: Some(kind.into()),
        reminder_plan: Some(reminder_plan.into()),
        ..EventConfigurationInput::default()
    }
}

fn input(title: &str, due_at: Option<i64>, event: Option<EventConfigurationInput>) -> CreateItemInput {
    CreateItemInput {
        title: title.into(),
        notes: String::new(),
        category_id: Some("work".into()),
        due_at: due_at.map(text),
        must_complete_today: false,
        repeat_interval_minutes: None,
        tag_ids: Vec::new(),
        event,
    }
}

fn create(input: &CreateItemInput, now: i64) -> ItemPlan {
    plan_new_item(input, &settings(), &default_event_kind_defaults(), now).unwrap()
}

/// An item as the scheduler reads it from the store, with its next reminder.
struct Stored {
    row: DueRow,
    due_at: i64,
    next: Option<i64>,
    settings: Settings,
}

/// A delivery: the local time of day it announces and its claim key.
struct Delivered {
    due_local_time: String,
    key: String,
}

impl Stored {
    fn new(plan: &ItemPlan) -> Stored {
        let due_at = seconds(&plan.due_at);
        let row = DueRow {
            id: "item-1".into(),
            title: plan.title.clone(),
            completion_policy: plan.completion_policy.clone(),
            reminder_plan: plan.event.reminder_plan.clone(),
            event_kind: plan.event.kind.clone(),
            repeat_interval_minutes: plan.repeat_interval,
            scheduled_for: String::new(),
            bypass_quiet_hours: false,
            revision: 1,
            due_local_date: local_day(due_at),
            due_local_time: local_time(due_at),
            end_at: plan.event.end_at.clone(),
            target_at: plan.event.target_at.clone(),
            cadence_value: plan.event.cadence_value,
            cadence_unit: plan.event.cadence_unit.clone(),
            emphasis_max_per_day: plan.event.emphasis_max_per_day,
            emphasis_count: 0,
            emphasis_count_local_date: None,
            series_anchor_month: plan.series_anchor_month,
            series_anchor_day: plan.series_anchor_day,
            repeat_time_first: plan.repeat_times.first().cloned(),
            repeat_time_second: plan.repeat_times.get(1).cloned(),
        };
        Stored { row, due_at, next: plan.next_reminder.as_deref().map(seconds), settings: settings() }
    }

    /// One run of the scheduler at `now`: the delivery it makes, if any.
    fn process(&mut self, now: i64) -> Option<Delivered> {
        let due = self.next.filter(|next| *next <= now)?;
        self.row.scheduled_for = text(due);
        match decide_due_row(&self.row, now, &self.settings, &local_day(now)).unwrap() {
            DueDecision::Drop => {
                self.next = None;
                None
            }
            DueDecision::Deliver(plan) => {
                self.row.emphasis_count = plan.emphasis_count;
                self.row.emphasis_count_local_date = plan.emphasis_date.clone();
                match plan.update {
                    ItemUpdate::MoveOccurrence { next } => {
                        self.due_at = next;
                        self.row.due_local_date = local_day(next);
                        self.row.due_local_time = local_time(next);
                        self.next = Some(next);
                    }
                    ItemUpdate::Keep => {}
                    ItemUpdate::Reschedule { next, .. } => self.next = next,
                }
                Some(Delivered { due_local_time: local_time(due), key: plan.key })
            }
        }
    }
}

#[test]
fn ordinary_repeats_daily_but_one_time_expires_after_its_local_day() {
    let due = at_local(2026, 9, 1, 18, 0);
    let mut ordinary = Stored::new(&create(&input("每日回顾", Some(due), Some(event("ORDINARY", "REPEAT"))), due - 3600));
    let mut one_time = Stored::new(&create(&input("一次性提醒", Some(due), Some(event("ONE_TIME", "ONCE"))), due - 3600));

    let now = at_local(2026, 9, 2, 8, 0);
    assert!(ordinary.process(now).is_some());
    assert!(one_time.process(now).is_none());
    assert_eq!(one_time.next, None);
    assert_eq!(ordinary.next, Some(at_local(2026, 9, 2, 18, 0)));
}

#[test]
fn today_must_with_once_plan_stops_after_the_day_ends() {
    let due = at_local(2026, 9, 1, 22, 0);
    let mut item = Stored::new(&create(&input("今日必做但仅提醒一次", Some(due), Some(event("TODAY_MUST", "ONCE"))), due - 3600));
    assert!(item.process(at_local(2026, 9, 2, 8, 0)).is_none());
    assert_eq!(item.next, None);
}

#[test]
fn warning_repeats_at_daily_slots_from_lead_time_until_target() {
    let target = at_local(2026, 9, 10, 10, 0);
    let mut warning = event("WARNING", "REPEAT");
    warning.target_at = Some(text(target));
    warning.lead_value = Some(3);
    warning.lead_unit = Some("DAY".into());
    let plan = create(&input("证书到期预警", None, Some(warning)), at_local(2026, 9, 6, 9, 0));
    assert_eq!(plan.next_reminder, Some(text(at_local(2026, 9, 7, 10, 0))));
    let mut item = Stored::new(&plan);

    assert!(item.process(at_local(2026, 9, 7, 10, 0)).is_some());
    assert_eq!(item.next, Some(at_local(2026, 9, 7, 17, 0)));

    item.next = Some(target);
    assert!(item.process(target).is_some());
    assert_eq!(item.next, None);
}

#[test]
fn default_repeat_item_uses_two_snapshot_slots_and_skips_missed_history() {
    let mut created_input = input("双时点提醒", None, Some(event("ORDINARY", "REPEAT")));
    created_input.category_id = None;
    let plan = create(&created_input, at_local(2026, 9, 1, 9, 0));
    assert_eq!(plan.repeat_time_mode, "DEFAULT");
    assert_eq!(plan.repeat_times, vec!["10:00", "17:00"]);
    assert_eq!(plan.next_reminder, Some(text(at_local(2026, 9, 1, 10, 0))));
    let mut item = Stored::new(&plan);

    let first = item.process(at_local(2026, 9, 1, 10, 1)).unwrap();
    assert_eq!(first.due_local_time, "10:00");
    assert_eq!(item.next, Some(at_local(2026, 9, 1, 17, 0)));

    let after_sleep = item.process(at_local(2026, 9, 1, 22, 0)).unwrap();
    assert_eq!(after_sleep.due_local_time, "17:00");
    assert_eq!(item.next, Some(at_local(2026, 9, 2, 10, 0)));
}

#[test]
fn monthly_force_plan_repeats_current_occurrence_until_it_is_completed() {
    let january = at_local(2026, 1, 31, 9, 0);
    let mut force = input("月度强制盘点", Some(january), Some(event("MONTHLY", "FORCE")));
    force.repeat_interval_minutes = Some(30);
    let mut item = Stored::new(&create(&force, at_local(2026, 1, 30, 9, 0)));

    assert!(item.process(january).is_some());
    assert_eq!(item.due_at, january);
    assert_eq!(item.next, Some(january + 30 * 60));
}

#[test]
fn continuous_event_skips_missed_cycles_and_stops_after_end() {
    let start = at_local(2026, 9, 1, 9, 0);
    let end = at_local(2026, 9, 10, 9, 0);
    let mut continuous = event("CONTINUOUS", "CUSTOM");
    continuous.start_at = Some(text(start));
    continuous.end_at = Some(text(end));
    continuous.cadence_value = Some(3);
    continuous.cadence_unit = Some("DAY".into());
    let mut created = input("持续备考", None, Some(continuous));
    created.category_id = Some("personal".into());
    let mut item = Stored::new(&create(&created, start - 3600));

    assert!(item.process(start).is_some());
    let wake = at_local(2026, 9, 8, 9, 0);
    assert!(item.process(wake).is_some());
    assert_eq!(item.next, Some(end));
    assert!(item.process(at_local(2026, 9, 11, 9, 0)).is_none());
    assert_eq!(item.next, None);
}

#[test]
fn emphasis_honors_the_daily_delivery_limit() {
    let due = at_local(2026, 9, 1, 18, 0);
    let mut emphasis = event("TODAY_MUST", "EMPHASIS");
    emphasis.emphasis_max_per_day = Some(2);
    let mut created = input("强调事项", Some(due), Some(emphasis));
    created.repeat_interval_minutes = Some(15);
    let mut item = Stored::new(&create(&created, due - 3600));

    assert!(item.process(due).is_some());
    assert!(item.process(due + 15 * 60).is_some());
    assert_eq!(item.next, Some(at_local(2026, 9, 2, 18, 0)));
}

#[test]
fn must_complete_item_repeats_instead_of_rolling_over() {
    let due = at_local(2026, 8, 27, 18, 0);
    let mut created = input("加班发布", Some(due), None);
    created.must_complete_today = true;
    created.repeat_interval_minutes = Some(30);
    let plan = create(&created, at_local(2026, 8, 27, 17, 0));
    assert_eq!(plan.completion_policy, "MUST_COMPLETE_TODAY");
    let mut item = Stored::new(&plan);
    assert!(item.process(at_local(2026, 8, 27, 18, 1)).is_some());
    assert!(item.next.is_some());
}

#[test]
fn must_complete_created_after_default_time_notifies_immediately() {
    let now = at_local(2026, 8, 27, 22, 11);
    let mut created = input("深夜必须完成", None, None);
    created.category_id = None;
    created.must_complete_today = true;
    created.repeat_interval_minutes = Some(15);
    let plan = create(&created, now);
    assert_eq!(local_day(plan.due.utc), "2026-08-27");
    assert_eq!(local_time(plan.due.utc), "22:11");
    let mut item = Stored::new(&plan);
    assert!(item.process(now).is_some());
    assert!(item.next.is_some());
}

#[test]
fn processing_same_time_does_not_duplicate_notification() {
    let due = at_local(2026, 8, 27, 18, 0);
    let mut created = input("确认发布", Some(due), None);
    created.category_id = None;
    let plan = create(&created, at_local(2026, 8, 27, 17, 0));
    let mut first_run = Stored::new(&plan);
    let mut second_run = Stored::new(&plan);
    let now = at_local(2026, 8, 27, 18, 1);
    let first = first_run.process(now).unwrap();
    let second = second_run.process(now).unwrap();
    // Both runs claim the same key, which the store accepts only once.
    assert_eq!(first.key, second.key);
    assert_eq!(first.key, reminder_idempotency_key("item-1", &text(due), 1));
}

#[test]
fn recycle_bin_removes_items_after_thirty_days() {
    let deleted_at = at_local(2026, 7, 1, 10, 0);
    let (recycle_cutoff, _) = process_cutoffs(deleted_at + 31 * 86_400);
    assert!(deleted_at <= recycle_cutoff);
    let (not_yet, _) = process_cutoffs(deleted_at + 29 * 86_400);
    assert!(deleted_at > not_yet);
}

#[test]
fn stale_claim_is_recovered_once_after_interrupted_delivery() {
    let claimed_at = at_local(2026, 8, 27, 18, 1);
    let recovered_at = claimed_at + 2 * 60;
    let (_, stale_before) = process_cutoffs(recovered_at);
    assert!(claimed_at <= stale_before);
    // The recovered claim is stamped with the recovery time and is not stale again.
    let (_, stale_again) = process_cutoffs(recovered_at);
    assert!(recovered_at > stale_again);
    let (_, too_early) = process_cutoffs(claimed_at + 60);
    assert!(claimed_at > too_early);
}

#[test]
fn failed_notification_retries_with_bounded_backoff() {
    let due = at_local(2026, 8, 27, 18, 0);
    let mut created = input("重试系统通知", Some(due), None);
    created.category_id = None;
    let mut item = Stored::new(&create(&created, at_local(2026, 8, 27, 17, 0)));

    let first_at = at_local(2026, 8, 27, 18, 1);
    assert!(item.process(first_at).is_some());
    item.next = retry_after_failure(0, first_at, item.next);
    assert_eq!(item.next, Some(first_at + 60));

    let second_at = first_at + 60;
    assert!(item.process(second_at).is_some());
    item.next = retry_after_failure(1, second_at, item.next);
    assert_eq!(item.next, Some(second_at + 5 * 60));
    assert_eq!(notification_retry_delay(2), Some(15));
    assert_eq!(retry_after_failure(3, second_at, None), None);
    // A reminder already due sooner than the retry is kept.
    assert_eq!(retry_after_failure(0, second_at, Some(second_at + 30)), Some(second_at + 30));
}

fn series_item(due_at: i64) -> Item {
    Item {
        id: "item-1".into(),
        title: "月末结账".into(),
        notes: String::new(),
        status: "OPEN".into(),
        category_id: Some("work".into()),
        category_name: None,
        due_at: text(due_at),
        due_local_date: local_day(due_at),
        due_local_time: local_time(due_at),
        due_source: "EXPLICIT".into(),
        rollover_policy: "NONE".into(),
        rollover_count: 0,
        completion_policy: "NORMAL".into(),
        repeat_interval_minutes: None,
        next_reminder_at: Some(text(due_at)),
        reminder_paused: false,
        bypass_app_quiet_hours: false,
        created_at: text(due_at),
        updated_at: text(due_at),
        completed_at: None,
        deleted_at: None,
        event_kind: Some("MONTHLY".into()),
        reminder_plan: "ONCE".into(),
        important: false,
        time_mode: "SPECIFIED".into(),
        start_at: None,
        end_at: None,
        target_at: None,
        lead_value: None,
        lead_unit: None,
        cadence_value: None,
        cadence_unit: None,
        emphasis_max_per_day: 3,
        repeat_time_mode: "SPECIFIED".into(),
        repeat_times: Vec::new(),
        tags: Vec::new(),
    }
}

#[test]
fn monthly_series_keeps_its_day_anchor_and_complete_current_does_not_skip() {
    let january = at_local(2026, 1, 31, 9, 0);
    let plan = create(&input("月末结账", Some(january), Some(event("MONTHLY", "ONCE"))), at_local(2026, 1, 10, 9, 0));
    let (anchor_month, anchor_day) = (plan.series_anchor_month, plan.series_anchor_day);
    let mut item = Stored::new(&plan);

    let early = series_completion(&series_item(item.due_at), false, anchor_month, anchor_day, at_local(2026, 1, 10, 10, 0))
        .unwrap();
    let february = at_local(2026, 2, 28, 9, 0);
    assert_eq!(early, SeriesCompletion::Advance(february));
    item.due_at = february;
    item.row.due_local_date = local_day(february);
    item.next = Some(february);

    assert!(item.process(february).is_some());
    assert_eq!(item.due_at, at_local(2026, 3, 31, 9, 0));

    let current = series_completion(&series_item(item.due_at), true, anchor_month, anchor_day, february + 60).unwrap();
    assert_eq!(current, SeriesCompletion::Acknowledge);
}

fn open_item(stored: &Stored) -> Item {
    let mut item = series_item(stored.due_at);
    item.event_kind = stored.row.event_kind.clone();
    item.completion_policy = stored.row.completion_policy.clone();
    item.next_reminder_at = stored.next.map(text);
    item
}

#[test]
fn reminder_center_requires_an_explicit_action_and_ack_stops_normal_repeats() {
    let due = at_local(2026, 8, 27, 18, 0);
    let mut created = input("等待明确确认", Some(due), None);
    created.category_id = None;
    let mut item = Stored::new(&create(&created, due - 3600));
    item.settings.repeat_unacknowledged_enabled = true;
    item.settings.unacknowledged_repeat_minutes = 15;
    item.settings.quiet_hours_enabled = false;

    let first_at = due + 60;
    assert!(item.process(first_at).is_some());
    assert!(item.next.is_some());

    item.next = acknowledge_change(&open_item(&item)).unwrap().as_deref().map(seconds);
    assert!(item.next.is_none());
    assert!(item.process(first_at + 20 * 60).is_none());
}

#[test]
fn reminder_center_snooze_completion_and_pause_remove_the_current_entry() {
    let due = at_local(2026, 8, 27, 18, 0);
    let mut created = input("提醒中心操作", Some(due), None);
    created.category_id = None;
    created.must_complete_today = true;
    created.repeat_interval_minutes = Some(30);
    let mut item = Stored::new(&create(&created, due - 3600));
    let now = due + 60;
    assert!(item.process(now).is_some());

    let snoozed = snooze_until(&open_item(&item), 15, now).unwrap();
    assert_eq!(snoozed, now + 15 * 60);
    item.next = Some(snoozed);
    assert!(item.process(now).is_none());
    assert!(item.process(now + 15 * 60).is_some());

    assert!(pause_change(&open_item(&item), true, &text(now)).unwrap().is_none());
    assert!(pause_change(&open_item(&item), false, &text(now)).unwrap().is_some());
    let completed = completion_change(true, &open_item(&item), &text(now));
    assert!(completed.next_reminder.is_none());
}

#[test]
fn email_routes_are_tag_scoped_idempotent_and_use_bounded_retries() {
    // Without a route on the item's tag no mail is claimed; with one, one claim per reminder event.
    assert!(!email_claim_needed(false, "NORMAL", false, false));
    assert!(email_claim_needed(true, "NORMAL", false, false));
    assert!(!email_claim_needed(true, "NORMAL", false, true));
    assert_eq!(email_claim_key("event-1"), email_claim_key("event-1"));

    let now = at_local(2026, 8, 27, 18, 1);
    let first_retry = email_retry_at(1, now).unwrap();
    assert!(first_retry > now + 59);
    assert_eq!(first_retry, now + 60);
    let second_failure = now + 60;
    let second_retry = email_retry_at(2, second_failure).unwrap();
    assert_eq!(second_retry, now + 6 * 60);
    assert_eq!(email_retry_at(3, now + 6 * 60), None);
}

/// The stored item that a plan creates, as the store gives it back.
fn stored_item(plan: &ItemPlan, category: Option<&str>) -> Item {
    let mut item = series_item(plan.due.utc);
    item.title = plan.title.clone();
    item.category_id = category.map(str::to_string);
    item.event_kind = plan.event.kind.clone();
    item.reminder_plan = plan.event.reminder_plan.clone();
    item.completion_policy = plan.completion_policy.clone();
    item.due_source = plan.due_source.clone();
    item.time_mode = plan.time_mode.clone();
    item.next_reminder_at = plan.next_reminder.clone();
    item.repeat_time_mode = plan.repeat_time_mode.clone();
    item.repeat_times = plan.repeat_times.clone();
    item
}

fn update_of(item: &Item, event: Option<EventConfigurationInput>) -> UpdateItemInput {
    UpdateItemInput {
        title: item.title.clone(),
        notes: item.notes.clone(),
        category_id: item.category_id.clone(),
        tag_ids: Vec::new(),
        due_at: item.due_at.clone(),
        must_complete_today: false,
        repeat_interval_minutes: None,
        event,
    }
}

fn update(item: &Item, input: &UpdateItemInput, settings: &Settings, now: i64) -> ItemPlan {
    plan_item_update(item, input, settings, &default_event_kind_defaults(), now, &text(now)).unwrap()
}

#[test]
fn create_default_item_and_complete_in_one_store() {
    let plan = create(&input("提交报销", None, Some(event("ORDINARY", "ONCE"))), at_local(2026, 8, 27, 10, 0));
    assert_eq!(plan.due_source, "DEFAULT_EOD");
    assert_eq!(local_time(plan.due.utc), "18:00");
    let completed = completion_change(true, &stored_item(&plan, Some("work")), &text(at_local(2026, 8, 27, 11, 0)));
    assert_eq!(completed.status, "DONE");
    assert!(completed.next_reminder.is_none());
}

#[test]
fn changing_default_time_for_new_items_keeps_existing_due_time() {
    let now = at_local(2026, 8, 27, 10, 0);
    let mut created = input("已有事项", None, Some(event("ORDINARY", "ONCE")));
    created.category_id = None;
    let existing = create(&created, now);
    let mut changed = settings();
    changed.default_due_time = "17:30".into();
    // The existing item keeps what it was created with.
    assert_eq!(local_time(existing.due.utc), "18:00");
    created.title = "新事项".into();
    let new_item = plan_new_item(&created, &changed, &default_event_kind_defaults(), now).unwrap();
    assert_eq!(local_time(new_item.due.utc), "17:30");
}

#[test]
fn changing_repeat_defaults_does_not_rewrite_existing_item_snapshot() {
    let now = at_local(2026, 9, 1, 9, 0);
    let mut created = input("保留旧时间", None, Some(event("ORDINARY", "REPEAT")));
    created.category_id = None;
    let existing = stored_item(&create(&created, now), None);
    assert_eq!(existing.repeat_times, vec!["10:00", "17:00"]);
    let mut changed = settings();
    changed.repeat_default_times = vec!["09:30".into(), "16:30".into()];

    let mut preserved = event("ORDINARY", "REPEAT");
    preserved.repeat_time_mode = Some("DEFAULT".into());
    preserved.repeat_times = vec!["10:00".into(), "17:00".into()];
    let mut edit = update_of(&existing, Some(preserved));
    edit.title = "只修改标题".into();
    let edited = update(&existing, &edit, &changed, at_local(2026, 9, 1, 9, 5));
    assert_eq!(edited.repeat_times, vec!["10:00", "17:00"]);
}

#[test]
fn event_kind_conversion_preserves_type_and_tags() {
    let due = at_local(2026, 9, 2, 18, 0);
    let mut created = input("精细管理", Some(due), Some(event("ORDINARY", "REPEAT")));
    created.tag_ids = vec!["project-a".into()];
    let existing = stored_item(&create(&created, at_local(2026, 9, 2, 9, 0)), Some("work"));
    let mut edit = update_of(&existing, Some(event("YEARLY", "ONCE")));
    edit.tag_ids = vec!["project-a".into()];
    let updated = update(&existing, &edit, &settings(), at_local(2026, 9, 2, 10, 0));
    assert_eq!(updated.event.kind.as_deref(), Some("YEARLY"));
    assert_eq!(updated.title, "精细管理");
    assert_eq!(unique_tag_ids(&edit.tag_ids), vec!["project-a".to_string()]);
}

#[test]
fn existing_item_can_change_type_and_tags_without_changing_status() {
    let now = at_local(2026, 8, 28, 17, 0);
    let created = input("确认客户反馈", Some(at_local(2026, 8, 28, 18, 0)), None);
    let existing = stored_item(&create(&created, now), Some("work"));
    let mut edit = update_of(&existing, None);
    edit.notes = "已电话确认".into();
    edit.category_id = Some("personal".into());
    edit.tag_ids = vec!["tag-1".into()];
    let updated = update(&existing, &edit, &settings(), now);
    assert_eq!(updated.due_at, existing.due_at);
    assert_eq!(updated.completion_policy, "NORMAL");
    assert_eq!(unique_tag_ids(&edit.tag_ids), vec!["tag-1".to_string()]);
}

#[test]
fn old_must_complete_item_misplaced_on_future_day_is_repaired() {
    let mut created = input("旧版误排事项", None, None);
    created.category_id = None;
    created.must_complete_today = true;
    created.repeat_interval_minutes = Some(15);
    let plan = create(&created, at_local(2026, 8, 27, 10, 0));
    assert_eq!(plan.due_source, "DEFAULT_EOD");
    assert_eq!(plan.completion_policy, "MUST_COMPLETE_TODAY");

    let now = at_local(2026, 8, 27, 22, 20);
    // An older version stored it on the next day.
    assert!(misplaced_must_complete("OPEN", &plan.completion_policy, &plan.due_source, "2026-08-28", &local_day(now)));
    let mut item = Stored::new(&plan);
    item.due_at = now;
    item.row.due_local_date = local_day(now);
    item.row.due_local_time = local_time(now);
    item.next = Some(now);
    assert!(item.process(now).is_some());
    assert_eq!(item.row.due_local_date, "2026-08-27");
    assert_eq!(item.row.due_local_time, "22:20");
    assert!(!misplaced_must_complete("OPEN", "MUST_COMPLETE_TODAY", "DEFAULT_EOD", "2026-08-27", "2026-08-27"));
    assert!(!misplaced_must_complete("OPEN", "MUST_COMPLETE_TODAY", "EXPLICIT", "2026-08-28", "2026-08-27"));
}

#[test]
fn default_items_roll_over_to_the_next_workday_once_their_day_has_passed() {
    assert!(rolls_over("OPEN", "NORMAL", "ONCE", "NEXT_WORKDAY_EOD", "DEFAULT_EOD", "2026-08-27", "2026-08-28"));
    assert!(rolls_over("OPEN", "NORMAL", "ONCE", "NEXT_WORKDAY_EOD", "ROLLED_OVER", "2026-08-27", "2026-08-28"));
    assert!(!rolls_over("OPEN", "NORMAL", "ONCE", "NEXT_WORKDAY_EOD", "DEFAULT_EOD", "2026-08-28", "2026-08-28"));
    assert!(!rolls_over("OPEN", "NORMAL", "REPEAT", "NEXT_WORKDAY_EOD", "DEFAULT_EOD", "2026-08-27", "2026-08-28"));
    assert!(!rolls_over("OPEN", "NORMAL", "ONCE", "NONE", "DEFAULT_EOD", "2026-08-27", "2026-08-28"));
    assert!(!rolls_over("DONE", "NORMAL", "ONCE", "NEXT_WORKDAY_EOD", "DEFAULT_EOD", "2026-08-27", "2026-08-28"));
    assert!(!rolls_over("OPEN", "MUST_COMPLETE_TODAY", "ONCE", "NEXT_WORKDAY_EOD", "DEFAULT_EOD", "2026-08-27", "2026-08-28"));
}

#[test]
fn existing_default_items_follow_a_new_default_time() {
    assert!(follows_default_time("OPEN", "NORMAL", "DEFAULT_EOD"));
    assert!(follows_default_time("OPEN", "NORMAL", "ROLLED_OVER"));
    assert!(!follows_default_time("OPEN", "NORMAL", "EXPLICIT"));
    assert!(!follows_default_time("OPEN", "MUST_COMPLETE_TODAY", "DEFAULT_EOD"));
    assert!(!follows_default_time("DONE", "NORMAL", "DEFAULT_EOD"));

    let mut changed = settings();
    changed.default_due_time = "17:30".into();
    // 2026-08-27 is a Thursday: before 17:30 the item stays on its day.
    let same_day = default_time_update("2026-08-27", &changed, at_local(2026, 8, 27, 10, 0)).unwrap();
    assert_eq!(same_day.utc, at_local(2026, 8, 27, 17, 30));
    // Once that time has passed it moves to the next workday.
    let next_day = default_time_update("2026-08-27", &changed, at_local(2026, 8, 27, 18, 0)).unwrap();
    assert_eq!(next_day.utc, at_local(2026, 8, 28, 17, 30));
    let error = default_time_update("yesterday", &changed, at_local(2026, 8, 27, 10, 0)).unwrap_err();
    assert!(matches!(error, shanji::error::AppError::Validation(ref m) if m == "已有事项的本地日期数据损坏"));
}

#[test]
fn reminder_center_lists_open_unacknowledged_items_that_were_reminded() {
    assert!(event_reached("SUBMITTED") && event_reached("FAILED") && event_reached("DISABLED") && event_reached("CLAIMED"));
    assert!(!event_reached("PENDING"));
    assert!(in_reminder_center("OPEN", false, false, true));
    assert!(!in_reminder_center("OPEN", true, false, true));
    assert!(!in_reminder_center("OPEN", false, true, true));
    assert!(!in_reminder_center("OPEN", false, false, false));
    assert!(!in_reminder_center("DONE", false, false, true));
    assert!(check_classification_result("SUBMITTED").is_ok());
    assert!(check_classification_result("DISABLED").is_ok());
    let error = check_classification_result("LOST").unwrap_err();
    assert!(matches!(error, shanji::error::AppError::Validation(ref m) if m == "分类提醒投递状态无效"));
}
