use shanji::domain::{default_event_kind_defaults, Settings};
use shanji::email_rules::{ClaimStep, EmailDeliveryRule};
use shanji::records::DueNotification;
use shanji::scheduler::{
    classification_outcome, plan_reminder, reminder_email_claims, should_use_persistent_notification, SchedulerEvent,
    SchedulerState, SchedulerStep, POLL_INTERVAL_MILLIS,
};

fn settings() -> Settings {
    Settings {
        default_due_time: "18:00".into(),
        repeat_default_times: vec!["10:00".into(), "17:00".into()],
        workdays: vec![1, 2, 3, 4, 5],
        overtime_interval_minutes: 30,
        quiet_hours_enabled: true,
        quiet_start: "22:30".into(),
        quiet_end: "07:30".into(),
        global_shortcut: "CommandOrControl+Shift+Space".into(),
        notifications_enabled: true,
        autostart_enabled: false,
        persistent_notifications_enabled: true,
        overlay_reminders_enabled: false,
        repeat_unacknowledged_enabled: false,
        unacknowledged_repeat_minutes: 60,
        smtp_enabled: false,
        smtp_host: String::new(),
        smtp_port: 465,
        smtp_security: "tls".into(),
        smtp_from: String::new(),
        smtp_to: String::new(),
        smtp_username: String::new(),
        smtp_repeat_must_complete: false,
        event_kind_defaults: default_event_kind_defaults(),
    }
}

fn notification(policy: &str) -> DueNotification {
    DueNotification {
        event_id: "event".into(),
        item_id: "item".into(),
        title: "测试".into(),
        due_local_date: "2026-08-29".into(),
        due_local_time: "18:00".into(),
        completion_policy: policy.into(),
        event_kind: (policy == "MUST_COMPLETE_TODAY").then(|| "TODAY_MUST".into()),
        reminder_plan: if policy == "MUST_COMPLETE_TODAY" { "EMPHASIS".into() } else { "ONCE".into() },
        tag_ids: Vec::new(),
    }
}

#[test]
fn persistent_native_mode_supports_today_must_and_force_plan() {
    let mut settings = settings();
    assert!(should_use_persistent_notification(&settings, &notification("MUST_COMPLETE_TODAY")));
    assert!(!should_use_persistent_notification(&settings, &notification("NORMAL")));
    let mut forced = notification("NORMAL");
    forced.reminder_plan = "FORCE".into();
    assert!(should_use_persistent_notification(&settings, &forced));
    settings.persistent_notifications_enabled = false;
    assert!(!should_use_persistent_notification(&settings, &notification("MUST_COMPLETE_TODAY")));
}

#[test]
fn scheduler_waits_for_the_earliest_deadline() {
    let mut state = SchedulerState::start(1_000);
    assert_eq!(state.next_poll, 1_000 + POLL_INTERVAL_MILLIS);
    assert_eq!(state.wait_millis(1_000), POLL_INTERVAL_MILLIS);
    assert_eq!(state.on_event(SchedulerEvent::WakeAfter(11_000), 2_000), SchedulerStep::Wait);
    assert_eq!(state.next_deadline(), 13_000);
    assert_eq!(state.wait_millis(3_000), 10_000);
    assert_eq!(state.wait_millis(20_000), 0);
}

#[test]
fn timeout_drops_passed_wakes_and_moves_the_poll_on() {
    let mut state = SchedulerState::start(0);
    state.on_event(SchedulerEvent::WakeAfter(5_000), 0);
    state.on_event(SchedulerEvent::WakeAfter(50_000), 0);
    assert_eq!(state.on_event(SchedulerEvent::Timeout, 5_000), SchedulerStep::Process);
    assert_eq!(state.delayed_wakes, vec![50_000]);
    assert_eq!(state.next_poll, POLL_INTERVAL_MILLIS);
    assert_eq!(state.on_event(SchedulerEvent::Timeout, POLL_INTERVAL_MILLIS), SchedulerStep::Process);
    assert_eq!(state.next_poll, 2 * POLL_INTERVAL_MILLIS);
    assert_eq!(state.on_event(SchedulerEvent::Wake, 40_000), SchedulerStep::Process);
    state.after_wake(40_000);
    assert_eq!(state.next_poll, 40_000 + POLL_INTERVAL_MILLIS);
    assert_eq!(state.on_event(SchedulerEvent::Stop, 41_000), SchedulerStep::Exit);
    assert_eq!(state.on_event(SchedulerEvent::Disconnected, 41_000), SchedulerStep::Exit);
}

#[test]
fn reminders_follow_their_channel_settings() {
    let mut settings = settings();
    settings.overlay_reminders_enabled = true;
    let plan = plan_reminder(&settings, true, &notification("MUST_COMPLETE_TODAY"));
    assert!(plan.show_overlay);
    assert!(!plan.send_email);
    assert!(!plan.record_disabled);
    assert_eq!(plan.notify, Some(true));
    let plan = plan_reminder(&settings, false, &notification("NORMAL"));
    assert!(plan.record_disabled);
    assert_eq!(plan.notify, None);
}

#[test]
fn classification_prompts_record_how_they_ended() {
    let disabled = classification_outcome(None);
    assert_eq!(disabled.result, "DISABLED");
    assert_eq!(disabled.error_code.as_deref(), Some("notifications_disabled"));
    assert_eq!(classification_outcome(Some(Ok(()))).result, "SUBMITTED");
    let failed = classification_outcome(Some(Err("platform_submit_failed".into())));
    assert_eq!(failed.result, "FAILED");
    assert_eq!(failed.error_code.as_deref(), Some("platform_submit_failed"));
}

fn email_rule(id: &str, recipient: &str) -> EmailDeliveryRule {
    EmailDeliveryRule {
        id: id.into(),
        match_dimension: "EVENT_KIND".into(),
        match_value: "TODAY_MUST".into(),
        strategy: "EACH_PLAN".into(),
        recipient: recipient.into(),
        digest_local_time: "18:00".into(),
        enabled: true,
        created_at: "2026-08-01T00:00:00+00:00".into(),
        updated_at: "2026-08-01T00:00:00+00:00".into(),
    }
}

#[test]
fn reminder_mail_is_claimed_through_the_rule_engine() {
    let rules = || vec![email_rule("a", "b@x.yz"), email_rule("b", "a@x.yz"), email_rule("c", "b@x.yz")];
    let n = notification("MUST_COMPLETE_TODAY");
    let mut s = settings();
    s.smtp_enabled = false;
    assert!(reminder_email_claims(&s, rules(), &n, &None, "2026-08-29").is_empty());
    s.smtp_enabled = true;
    let steps = reminder_email_claims(&s, rules(), &n, &None, "2026-08-29");
    let kept: Vec<(String, String)> = steps
        .iter()
        .map(|step| match step {
            Some(ClaimStep::Immediate { rule_id, recipient, .. }) => (rule_id.clone(), recipient.clone()),
            other => panic!("unexpected {other:?}"),
        })
        .collect();
    assert_eq!(kept, vec![("b".to_string(), "a@x.yz".to_string()), ("a".to_string(), "b@x.yz".to_string())]);
}
