use shanji::domain::{
    default_event_kind_defaults, CreateItemInput, EventConfigurationInput, Item, Settings,
    UpdateItemInput,
};
use shanji::error::AppError;
use shanji::item_rules::{
    acknowledge_change, classification_snooze_until, completion_change, deletion_change,
    ordinary_reminder, pause_change, permanent_delete_allowed, plan_item_update, plan_new_item,
    reminder_restart, reschedule_allowed, series_completion, snooze_until, text_le,
    SeriesCompletion,
};

fn settings() -> Settings {
    Settings {
        default_due_time: "18:00".into(),
        repeat_default_times: vec!["10:00".into(), "17:00".into()],
        workdays: vec![1, 2, 3, 4, 5],
        overtime_interval_minutes: 30,
        quiet_hours_enabled: false,
        quiet_start: "22:30".into(),
        quiet_end: "07:30".into(),
        global_shortcut: "Ctrl+Space".into(),
        notifications_enabled: true,
        autostart_enabled: false,
        persistent_notifications_enabled: true,
        overlay_reminders_enabled: false,
        repeat_unacknowledged_enabled: false,
        unacknowledged_repeat_minutes: 60,
        smtp_enabled: false,
        smtp_host: String::new(),
        smtp_port: 465,
        smtp_security: "tls".into(),
        smtp_from: String::new(),
        smtp_to: String::new(),
        smtp_username: String::new(),
        smtp_repeat_must_complete: false,
        event_kind_defaults: default_event_kind_defaults(),
    }
}

fn item(status: &str, kind: Option<&str>, due_at: &str) -> Item {
    Item {
        id: "item".into(),
        title: "交报告".into(),
        notes: String::new(),
        status: status.into(),
        category_id: None,
        category_name: None,
        due_at: due_at.into(),
        due_local_date: "2026-09-10".into(),
        due_local_time: "18:00".into(),
        due_source: "EXPLICIT".into(),
        rollover_policy: "NONE".into(),
        rollover_count: 0,
        completion_policy: "NORMAL".into(),
        repeat_interval_minutes: None,
        next_reminder_at: Some(due_at.into()),
        reminder_paused: false,
        bypass_app_quiet_hours: false,
        created_at: "2026-09-01T00:00:00+00:00".into(),
        updated_at: "2026-09-01T00:00:00+00:00".into(),
        completed_at: None,
        deleted_at: None,
        event_kind: kind.map(str::to_string),
        reminder_plan: "ONCE".into(),
        important: false,
        time_mode: "DEFAULT".into(),
        start_at: None,
        end_at: None,
        target_at: None,
        lead_value: None,
        lead_unit: None,
        cadence_value: None,
        cadence_unit: None,
        emphasis_max_per_day: 3,
        repeat_time_mode: "SPECIFIED".into(),
        repeat_times: Vec::new(),
        tags: Vec::new(),
    }
}

fn message(error: AppError) -> String {
    match error {
        AppError::Validation(message) => message,
        other => panic!("unexpected {other:?}"),
    }
}

const NOW_TEXT: &str = "2026-09-05T00:00:00+00:00";
const NOW: i64 = 1_788_566_400;

#[test]
fn stored_times_compare_as_text() {
    assert!(text_le("2026-09-01T00:00:00+00:00", NOW_TEXT));
    assert!(!text_le("2026-09-10T00:00:00+00:00", NOW_TEXT));
    assert_eq!(reminder_restart("2026-09-01T00:00:00+00:00", NOW_TEXT), NOW_TEXT);
    assert_eq!(reminder_restart("2026-09-10T18:00:00+00:00", NOW_TEXT), "2026-09-10T18:00:00+00:00");
}

#[test]
fn completing_and_reopening() {
    let done = completion_change(true, &item("OPEN", None, "2026-09-10T18:00:00+00:00"), NOW_TEXT);
    assert_eq!(done.status, "DONE");
    assert_eq!(done.completed_at.as_deref(), Some(NOW_TEXT));
    assert!(done.next_reminder.is_none() && done.classification_next.is_none());
    assert_eq!(done.event_type, "COMPLETED");
    let reopened = completion_change(false, &item("DONE", None, "2026-09-01T00:00:00+00:00"), NOW_TEXT);
    assert_eq!(reopened.status, "OPEN");
    assert_eq!(reopened.next_reminder.as_deref(), Some(NOW_TEXT));
    assert_eq!(reopened.classification_next.as_deref(), Some(NOW_TEXT));
    let kinded = completion_change(false, &item("DONE", Some("ORDINARY"), "2026-09-10T18:00:00+00:00"), NOW_TEXT);
    assert!(kinded.classification_next.is_none());
    assert_eq!(kinded.event_type, "REOPENED");
}

#[test]
fn choosing_ordinary_restarts_an_open_reminder() {
    assert_eq!(
        message(ordinary_reminder(&item("DELETED", None, NOW_TEXT), NOW_TEXT).unwrap_err()),
        "请先从回收站恢复记录再选择类型"
    );
    assert_eq!(
        ordinary_reminder(&item("OPEN", None, "2026-09-10T18:00:00+00:00"), NOW_TEXT).unwrap().as_deref(),
        Some("2026-09-10T18:00:00+00:00")
    );
    assert!(ordinary_reminder(&item("DONE", None, NOW_TEXT), NOW_TEXT).unwrap().is_none());
    assert_eq!(classification_snooze_until(60, NOW).unwrap(), NOW + 3600);
    assert_eq!(
        message(classification_snooze_until(4, NOW).unwrap_err()),
        "稍后处理时间必须在 5 分钟到 24 小时之间"
    );
}

#[test]
fn series_cycles_are_completed_once() {
    let monthly = item("OPEN", Some("MONTHLY"), "2026-09-10T18:00:00+00:00");
    assert_eq!(series_completion(&monthly, true, None, Some(10), NOW).unwrap(), SeriesCompletion::Acknowledge);
    match series_completion(&monthly, false, None, Some(10), NOW).unwrap() {
        SeriesCompletion::Advance(next) => assert!(next > NOW),
        SeriesCompletion::Acknowledge => panic!("moves on"),
    }
    assert_eq!(
        message(series_completion(&item("OPEN", Some("ORDINARY"), NOW_TEXT), false, None, None, NOW).unwrap_err()),
        "只有月度或年度事件可以完成本次"
    );
    assert_eq!(
        message(series_completion(&item("OPEN", Some("YEARLY"), "bad"), false, None, None, NOW).unwrap_err()),
        "周期事件的当前时间数据损坏"
    );
}

#[test]
fn pausing_rescheduling_acknowledging_and_snoozing() {
    let open = item("OPEN", Some("ORDINARY"), "2026-09-10T18:00:00+00:00");
    assert!(pause_change(&open, true, NOW_TEXT).unwrap().is_none());
    assert_eq!(pause_change(&open, false, NOW_TEXT).unwrap().as_deref(), Some("2026-09-10T18:00:00+00:00"));
    assert_eq!(message(pause_change(&item("DONE", None, NOW_TEXT), true, NOW_TEXT).unwrap_err()), "只有待处理事件可以暂停提醒");
    assert!(reschedule_allowed(&open, NOW_TEXT).is_ok());
    assert_eq!(
        message(reschedule_allowed(&item("OPEN", None, "2026-09-01T00:00:00+00:00"), NOW_TEXT).unwrap_err()),
        "逾期事项的原到期时间不能修改；可以转换类型并从现在开始新计划"
    );
    assert_eq!(message(reschedule_allowed(&item("DONE", None, NOW_TEXT), NOW_TEXT).unwrap_err()), "只有未完成事项可以调整时间");
    assert!(acknowledge_change(&open).unwrap().is_none());
    let mut must = open.clone();
    must.completion_policy = "MUST_COMPLETE_TODAY".into();
    assert_eq!(acknowledge_change(&must).unwrap().as_deref(), Some("2026-09-10T18:00:00+00:00"));
    assert_eq!(snooze_until(&open, 15, NOW).unwrap(), NOW + 900);
    assert_eq!(message(snooze_until(&open, 241, NOW).unwrap_err()), "稍后提醒时间必须在 5–240 分钟之间");
    assert_eq!(message(snooze_until(&item("DONE", None, NOW_TEXT), 15, NOW).unwrap_err()), "这个事项已经不需要稍后提醒");
}

#[test]
fn recycle_bin_stops_reminders_and_restores_the_status() {
    let open = item("OPEN", None, "2026-09-01T00:00:00+00:00");
    let deleted = deletion_change(&open, true, None, NOW_TEXT);
    assert_eq!(deleted.status, "DELETED");
    assert_eq!(deleted.deleted_from_status.as_deref(), Some("OPEN"));
    assert!(deleted.next_reminder.is_none());
    let restored = deletion_change(&item("DELETED", None, "2026-09-01T00:00:00+00:00"), false, Some("OPEN".into()), NOW_TEXT);
    assert_eq!(restored.status, "OPEN");
    assert_eq!(restored.next_reminder.as_deref(), Some(NOW_TEXT));
    assert_eq!(restored.classification_next.as_deref(), Some(NOW_TEXT));
    let restored_done = deletion_change(&item("DELETED", None, NOW_TEXT), false, Some("DONE".into()), NOW_TEXT);
    assert_eq!(restored_done.status, "DONE");
    assert!(restored_done.next_reminder.is_none());
    assert!(matches!(permanent_delete_allowed(None), Err(AppError::ItemNotFound)));
    assert_eq!(message(permanent_delete_allowed(Some("OPEN".into())).unwrap_err()), "只有回收站中的事项可以永久删除");
    assert!(permanent_delete_allowed(Some("DELETED".into())).is_ok());
}

fn create_input(due_at: Option<&str>, kind: Option<&str>, plan: Option<&str>) -> CreateItemInput {
    CreateItemInput {
        title: "  交报告  ".into(),
        notes: String::new(),
        category_id: None,
        due_at: due_at.map(str::to_string),
        must_complete_today: false,
        repeat_interval_minutes: None,
        tag_ids: Vec::new(),
        event: kind.map(|k| EventConfigurationInput {
            kind: Some(k.into()),
            reminder_plan: plan.map(str::to_string),
            ..EventConfigurationInput::default()
        }),
    }
}

#[test]
fn new_item_with_explicit_time_is_planned() {
    let plan = plan_new_item(
        &create_input(Some("2026-09-10T18:00:00+00:00"), Some("ORDINARY"), Some("ONCE")),
        &settings(),
        &default_event_kind_defaults(),
        NOW,
    )
    .unwrap();
    assert_eq!(plan.title, "交报告");
    assert_eq!(plan.due_at, "2026-09-10T18:00:00+00:00");
    assert_eq!(plan.due_source, "EXPLICIT");
    assert_eq!(plan.rollover_policy, "NONE");
    assert_eq!(plan.completion_policy, "NORMAL");
    assert_eq!(plan.time_mode, "SPECIFIED");
    assert_eq!(plan.next_reminder.as_deref(), Some("2026-09-10T18:00:00+00:00"));
    assert!(plan.classification_next.is_none());
    assert!(plan.repeat_interval.is_none());
}

#[test]
fn new_item_without_kind_or_time_rolls_over() {
    let plan = plan_new_item(&create_input(None, None, None), &settings(), &default_event_kind_defaults(), NOW).unwrap();
    assert_eq!(plan.due_source, "DEFAULT_EOD");
    assert_eq!(plan.time_mode, "DEFAULT");
    if plan.event.reminder_plan == "ONCE" {
        assert_eq!(plan.rollover_policy, "NEXT_WORKDAY_EOD");
    }
    assert_eq!(plan.classification_next.as_deref(), Some(plan.due_at.as_str()));
    let mut empty = create_input(None, None, None);
    empty.title = "   ".into();
    assert_eq!(
        message(plan_new_item(&empty, &settings(), &default_event_kind_defaults(), NOW).unwrap_err()),
        "事项内容不能为空"
    );
}

fn update_input(due_at: &str) -> UpdateItemInput {
    UpdateItemInput {
        title: "改过的标题".into(),
        notes: String::new(),
        category_id: None,
        tag_ids: Vec::new(),
        due_at: due_at.into(),
        must_complete_today: false,
        repeat_interval_minutes: None,
        event: None,
    }
}

#[test]
fn overdue_due_time_is_fixed_when_editing() {
    let overdue = item("OPEN", Some("ORDINARY"), "2026-09-01T00:00:00+00:00");
    assert_eq!(
        message(
            plan_item_update(&overdue, &update_input("2026-09-12T09:00:00+00:00"), &settings(), &default_event_kind_defaults(), NOW, NOW_TEXT)
                .unwrap_err()
        ),
        "逾期事项的原到期时间不能修改；可以转换类型并从现在开始新计划"
    );
    let kept = plan_item_update(&overdue, &update_input("2026-09-01T00:00:00+00:00"), &settings(), &default_event_kind_defaults(), NOW, NOW_TEXT).unwrap();
    assert_eq!(kept.due_at, "2026-09-01T00:00:00+00:00");
    assert_eq!(kept.time_mode, "DEFAULT");
    assert_eq!(kept.title, "改过的标题");
}

#[test]
fn editing_a_deleted_or_paused_item() {
    assert_eq!(
        message(
            plan_item_update(&item("DELETED", None, NOW_TEXT), &update_input(NOW_TEXT), &settings(), &default_event_kind_defaults(), NOW, NOW_TEXT)
                .unwrap_err()
        ),
        "请先从回收站恢复事项再编辑"
    );
    let mut paused = item("OPEN", Some("ORDINARY"), "2026-09-10T18:00:00+00:00");
    paused.reminder_paused = true;
    let plan = plan_item_update(&paused, &update_input("2026-09-12T09:00:00+00:00"), &settings(), &default_event_kind_defaults(), NOW, NOW_TEXT).unwrap();
    assert!(plan.next_reminder.is_none());
    assert_eq!(plan.time_mode, "SPECIFIED");
    assert_eq!(plan.due_source, "EXPLICIT");
}

#[test]
fn recycle_bin_stops_reminders_and_requires_restore_before_permanent_delete() {
    let now = "2026-08-28T09:00:00+00:00";
    let due = "2026-08-28T10:00:00+00:00";
    let open = item("OPEN", None, due);
    assert!(permanent_delete_allowed(Some(open.status.clone())).is_err());

    let deleted = deletion_change(&open, true, None, now);
    assert_eq!(deleted.status, "DELETED");
    assert!(deleted.next_reminder.is_none());
    assert_eq!(deleted.deleted_at.as_deref(), Some(now));

    let restored = deletion_change(&item("DELETED", None, due), false, deleted.deleted_from_status.clone(), now);
    assert_eq!(restored.status, "OPEN");
    assert!(restored.next_reminder.is_some());

    let done = completion_change(true, &item("OPEN", None, due), now);
    assert_eq!(done.status, "DONE");
    let deleted_done = deletion_change(&item("DONE", None, due), true, None, now);
    let restored_done = deletion_change(&item("DELETED", None, due), false, deleted_done.deleted_from_status.clone(), now);
    assert_eq!(restored_done.status, "DONE");
    assert!(restored_done.next_reminder.is_none());

    let deleted_again = deletion_change(&item("DONE", None, due), true, None, now);
    assert!(permanent_delete_allowed(Some(deleted_again.status)).is_ok());
    assert!(matches!(permanent_delete_allowed(None), Err(AppError::ItemNotFound)));
}

#[test]
fn overdue_item_keeps_its_original_due_time() {
    let item = item("OPEN", None, "2026-08-27T15:00:00+00:00");
    let error = reschedule_allowed(&item, "2026-08-27T22:00:00+00:00").unwrap_err();
    assert!(message(error).contains("原到期时间不能修改"));
    assert!(reschedule_allowed(&item, "2026-08-27T14:30:00+00:00").is_ok());
}
