use shanji::domain::{default_event_kind_defaults, Settings};
use shanji::due::{
    classification_batch, classification_idempotency_key, decide_due_row, decide_due_rows, delivery_plan,
    due_notification, email_claim_key, email_claim_needed, emphasis_tally, process_cutoffs, reminder_idempotency_key,
    scheduled_local_fields, DueDecision, ItemUpdate,
};
use shanji::schedule::DueRow;

fn settings() -> Settings {
    Settings {
        default_due_time: "18:00".into(),
        repeat_default_times: vec!["10:00".into(), "17:00".into()],
        workdays: vec![1, 2, 3, 4, 5],
        overtime_interval_minutes: 30,
        quiet_hours_enabled: false,
        quiet_start: "22:30".into(),
        quiet_end: "07:30".into(),
        global_shortcut: "CommandOrControl+Shift+Space".into(),
        notifications_enabled: true,
        autostart_enabled: false,
        persistent_notifications_enabled: true,
        overlay_reminders_enabled: false,
        repeat_unacknowledged_enabled: false,
        unacknowledged_repeat_minutes: 60,
        smtp_enabled: false,
        smtp_host: String::new(),
        smtp_port: 465,
        smtp_security: "tls".into(),
        smtp_from: String::new(),
        smtp_to: String::new(),
        smtp_username: String::new(),
        smtp_repeat_must_complete: false,
        event_kind_defaults: default_event_kind_defaults(),
    }
}

fn row(kind: Option<&str>, plan: &str) -> DueRow {
    DueRow {
        id: "item-1".into(),
        title: "月度对账".into(),
        completion_policy: "NORMAL".into(),
        reminder_plan: plan.into(),
        event_kind: kind.map(str::to_string),
        repeat_interval_minutes: None,
        scheduled_for: "2026-09-01T10:00:00+00:00".into(),
        bypass_quiet_hours: false,
        revision: 3,
        due_local_date: "2026-09-01".into(),
        due_local_time: "18:00".into(),
        end_at: None,
        target_at: None,
        cadence_value: None,
        cadence_unit: None,
        emphasis_max_per_day: 3,
        emphasis_count: 2,
        emphasis_count_local_date: Some("2026-09-01".into()),
        series_anchor_month: None,
        series_anchor_day: Some(1),
        repeat_time_first: None,
        repeat_time_second: None,
    }
}

#[test]
fn reminder_key_names_item_time_and_revision() {
    assert_eq!(
        reminder_idempotency_key("item-1", "2026-09-01T10:00:00+00:00", 3),
        "item-1:2026-09-01T10:00:00+00:00:3"
    );
    assert_eq!(
        classification_idempotency_key("item-1", "2026-09-01T10:00:00+00:00", 12),
        "classification:item-1:2026-09-01T10:00:00+00:00:12"
    );
}

#[test]
fn cutoffs_are_thirty_days_and_two_minutes_back() {
    assert_eq!(process_cutoffs(1_000_000_000), (1_000_000_000 - 2_592_000, 1_000_000_000 - 120));
}

#[test]
fn emphasis_count_grows_within_a_day_and_restarts_the_next() {
    let same = emphasis_tally(&row(None, "EMPHASIS"), "2026-09-01");
    assert_eq!(same, (3, Some("2026-09-01".to_string())));
    let next = emphasis_tally(&row(None, "EMPHASIS"), "2026-09-02");
    assert_eq!(next, (1, Some("2026-09-02".to_string())));
    let other = emphasis_tally(&row(None, "REPEAT"), "2026-09-02");
    assert_eq!(other, (2, Some("2026-09-01".to_string())));
    let mut full = row(None, "EMPHASIS");
    full.emphasis_count = u32::MAX;
    assert_eq!(emphasis_tally(&full, "2026-09-01").0, u32::MAX);
}

#[test]
fn series_reminding_once_moves_to_its_next_cycle() {
    let plan = delivery_plan(&row(Some("MONTHLY"), "ONCE"), Some(1_790_000_000), "2026-09-01");
    assert_eq!(plan.update, ItemUpdate::MoveOccurrence { next: 1_790_000_000 });
    assert_eq!(plan.key, "item-1:2026-09-01T10:00:00+00:00:3");
    let plan = delivery_plan(&row(Some("YEARLY"), "ONCE"), None, "2026-09-01");
    assert_eq!(plan.update, ItemUpdate::Keep);
    let plan = delivery_plan(&row(Some("MONTHLY"), "FORCE"), Some(5), "2026-09-01");
    assert_eq!(plan.update, ItemUpdate::Reschedule { next: Some(5), series_pending: true });
    let plan = delivery_plan(&row(Some("ORDINARY"), "REPEAT"), None, "2026-09-01");
    assert_eq!(plan.update, ItemUpdate::Reschedule { next: None, series_pending: false });
}

#[test]
fn expired_one_time_reminder_is_dropped_without_delivery() {
    let mut expired = row(Some("ONE_TIME"), "ONCE");
    expired.due_local_date = "2020-01-01".into();
    expired.scheduled_for = "2020-01-01T10:00:00+00:00".into();
    let decision = decide_due_row(&expired, 1_790_000_000, &settings(), "2026-09-20").unwrap();
    assert!(matches!(decision, DueDecision::Drop));
}

#[test]
fn ordinary_once_reminder_is_delivered_without_a_next_one() {
    let ordinary = row(Some("ORDINARY"), "ONCE");
    let decision = decide_due_row(&ordinary, 1_788_264_000, &settings(), "2026-09-01").unwrap();
    match decision {
        DueDecision::Deliver(plan) => {
            assert_eq!(plan.next, None);
            assert_eq!(plan.key, "item-1:2026-09-01T10:00:00+00:00:3");
        }
        DueDecision::Drop => panic!("an ordinary reminder is delivered"),
    }
}

#[test]
fn unreadable_scheduled_time_is_an_error() {
    let mut broken = row(Some("ORDINARY"), "REPEAT");
    broken.scheduled_for = "yesterday".into();
    assert!(decide_due_row(&broken, 1_788_264_000, &settings(), "2026-09-01").is_err());
}

#[test]
fn notification_falls_back_to_the_stored_due_fields() {
    let n = due_notification(row(Some("ORDINARY"), "ONCE"), "event".into(), None, vec!["tag".into()]);
    assert_eq!(n.due_local_date, "2026-09-01");
    assert_eq!(n.due_local_time, "18:00");
    assert_eq!(n.tag_ids, vec!["tag".to_string()]);
    let n = due_notification(
        row(Some("ORDINARY"), "ONCE"),
        "event".into(),
        Some(("2026-09-02".into(), "09:30".into())),
        Vec::new(),
    );
    assert_eq!(n.due_local_date, "2026-09-02");
    assert_eq!(n.due_local_time, "09:30");
    assert!(scheduled_local_fields("not a time").is_none());
    let fields = scheduled_local_fields("2026-09-01T10:00:00+00:00").unwrap();
    assert_eq!(fields.0.len(), 10);
    assert_eq!(fields.1.len(), 5);
}

#[test]
fn several_unclassified_items_share_one_classification_notification() {
    assert!(classification_batch(Vec::new()).is_none());
    let one = classification_batch(vec![("e1".into(), "i1".into())]).unwrap();
    assert_eq!(one.count, 1);
    assert_eq!(one.item_id.as_deref(), Some("i1"));
    assert_eq!(one.event_ids, vec!["e1".to_string()]);
    let many = classification_batch(vec![
        ("e1".into(), "i1".into()),
        ("e2".into(), "i2".into()),
        ("e3".into(), "i3".into()),
    ])
    .unwrap();
    assert_eq!(many.count, 3);
    assert!(many.item_id.is_none());
    assert_eq!(many.event_ids, vec!["e1".to_string(), "e2".to_string(), "e3".to_string()]);
}

#[test]
fn mail_is_claimed_once_unless_today_must_items_repeat() {
    assert!(!email_claim_needed(false, "NORMAL", true, false));
    assert!(email_claim_needed(true, "NORMAL", true, false));
    assert!(!email_claim_needed(true, "NORMAL", true, true));
    assert!(email_claim_needed(true, "MUST_COMPLETE_TODAY", true, true));
    assert!(!email_claim_needed(true, "MUST_COMPLETE_TODAY", false, true));
    assert_eq!(email_claim_key("event-7"), "event-7:email");
}

#[test]
fn multiple_unclassified_items_share_one_classification_notification() {
    let batch = classification_batch(vec![
        ("event-1".into(), "待分类一".into()),
        ("event-2".into(), "待分类二".into()),
    ])
    .unwrap();
    assert_eq!(batch.count, 2);
    assert!(batch.item_id.is_none());
}

#[test]
fn force_reminder_comes_back_after_its_interval_and_plain_ones_do_not() {
    let mut force = row(None, "FORCE");
    force.repeat_interval_minutes = Some(20);
    match decide_due_row(&force, 1_788_264_000, &settings(), "2026-09-01").unwrap() {
        DueDecision::Deliver(plan) => assert_eq!(plan.next, Some(1_788_264_000 + 20 * 60)),
        DueDecision::Drop => panic!("a force reminder is delivered"),
    }
    let plain = row(None, "ONCE");
    match decide_due_row(&plain, 1_788_264_000, &settings(), "2026-09-01").unwrap() {
        DueDecision::Deliver(plan) => assert_eq!(plan.next, None),
        DueDecision::Drop => panic!("a plain reminder is delivered"),
    }
}

#[test]
fn a_pass_decides_every_due_row_in_order() {
    let mut expired = row(Some("ONE_TIME"), "ONCE");
    expired.due_local_date = "2020-01-01".into();
    expired.scheduled_for = "2020-01-01T10:00:00+00:00".into();
    let ordinary = row(Some("ORDINARY"), "ONCE");
    let decisions = decide_due_rows(&[expired, ordinary], 1_788_264_000, &settings(), "2026-09-01").unwrap();
    assert_eq!(decisions.len(), 2);
    assert!(matches!(decisions[0], DueDecision::Drop));
    assert!(matches!(decisions[1], DueDecision::Deliver(_)));
    let mut broken = row(Some("ORDINARY"), "ONCE");
    broken.scheduled_for = "not a time".into();
    assert!(decide_due_rows(&[broken], 1_788_264_000, &settings(), "2026-09-01").is_err());
}
