use chrono::{Datelike, Local, TimeZone, Timelike};
use shanji::clock::{LocalDate, LocalDateTime};
use shanji::error::AppError;
use shanji::domain::{
    default_event_kind_defaults, must_complete_due, next_default_due, next_repeat_at, EventConfigurationInput,
    next_repeat_slot_after, shift_calendar, validate_global_shortcut, Settings, ShortcutParse,
    must_complete_due_from, next_daily_from, next_default_due_from, next_repeat_slot_from,
    choose_must_due, choose_slot, defer_past_quiet, DueMoment,
};

fn settings() -> Settings {
    Settings {
        default_due_time: "18:00".into(),
        repeat_default_times: vec!["10:00".into(), "17:00".into()],
        workdays: vec![1, 2, 3, 4, 5],
        overtime_interval_minutes: 30,
        quiet_hours_enabled: true,
        quiet_start: "22:30".into(),
        quiet_end: "07:30".into(),
        global_shortcut: "CommandOrControl+Shift+Space".into(),
        notifications_enabled: true,
        autostart_enabled: false,
        persistent_notifications_enabled: true,
        overlay_reminders_enabled: false,
        repeat_unacknowledged_enabled: false,
        unacknowledged_repeat_minutes: 60,
        smtp_enabled: false,
        smtp_host: String::new(),
        smtp_port: 465,
        smtp_security: "tls".into(),
        smtp_from: String::new(),
        smtp_to: String::new(),
        smtp_username: String::new(),
        smtp_repeat_must_complete: false,
        event_kind_defaults: default_event_kind_defaults(),
    }
}

fn local(y: i32, mo: u32, d: u32, h: u32, mi: u32) -> i64 {
    Local.with_ymd_and_hms(y, mo, d, h, mi, 0).unwrap().timestamp()
}

fn date(y: i32, m: u32, d: u32) -> LocalDate {
    LocalDate { year: y, month: m, day: d }
}

fn local_date_of(secs: i64) -> LocalDate {
    let l = Local.timestamp_opt(secs, 0).unwrap();
    date(l.year(), l.month(), l.day())
}

fn local_hm_of(secs: i64) -> (u32, u32) {
    let l = Local.timestamp_opt(secs, 0).unwrap();
    (l.hour(), l.minute())
}

#[test]
fn before_end_of_day_uses_same_workday() {
    let due = next_default_due(local(2026, 8, 27, 17, 0), &settings()).unwrap();
    assert_eq!(due.local_date, date(2026, 8, 27));
    assert_eq!(due.local_time, 18 * 3600);
}

#[test]
fn after_end_of_day_uses_next_workday() {
    let due = next_default_due(local(2026, 8, 28, 19, 0), &settings()).unwrap();
    assert_eq!(due.local_date, date(2026, 8, 31));
}

#[test]
fn must_complete_after_end_of_day_is_due_immediately_today() {
    let now = local(2026, 8, 27, 22, 11);
    let due = must_complete_due(now, &settings()).unwrap();
    assert_eq!(due.local_date, date(2026, 8, 27));
    assert_eq!(due.local_time, 22 * 3600 + 11 * 60);
    assert_eq!(due.utc, now);
}

#[test]
fn must_complete_before_end_of_day_uses_today_even_on_non_workday() {
    let due = must_complete_due(local(2026, 8, 29, 10, 0), &settings()).unwrap();
    assert_eq!(due.local_date, date(2026, 8, 29));
    assert_eq!(due.local_time, 18 * 3600);
}

#[test]
fn repeat_waits_until_quiet_hours_end() {
    let next = next_repeat_at(local(2026, 8, 27, 22, 15), 30, &settings(), false).unwrap();
    assert_eq!(local_date_of(next), date(2026, 8, 28));
    assert_eq!(local_hm_of(next), (7, 30));
}

#[test]
fn repeat_slots_choose_each_remaining_time_without_catching_up() {
    let values = vec!["10:00".to_string(), "17:00".to_string()];
    assert_eq!(next_repeat_slot_after(local(2026, 9, 1, 9, 0), &values).unwrap(), local(2026, 9, 1, 10, 0));
    assert_eq!(next_repeat_slot_after(local(2026, 9, 1, 12, 0), &values).unwrap(), local(2026, 9, 1, 17, 0));
    assert_eq!(next_repeat_slot_after(local(2026, 9, 1, 22, 0), &values).unwrap(), local(2026, 9, 2, 10, 0));
}

#[test]
fn monthly_calendar_shift_uses_the_last_valid_day() {
    let february = shift_calendar(local(2026, 1, 31, 9, 30), 1, "MONTH", true).unwrap();
    assert_eq!(local_date_of(february), date(2026, 2, 28));
    assert_eq!(local_hm_of(february), (9, 30));
}

#[test]
fn yearly_calendar_shift_clamps_leap_day_in_non_leap_year() {
    let next_year = shift_calendar(local(2028, 2, 29, 15, 0), 1, "YEAR", true).unwrap();
    assert_eq!(local_date_of(next_year), date(2029, 2, 28));
}

#[test]
fn shortcut_validation_returns_actionable_errors() {
    assert_eq!(
        validate_global_shortcut("", ShortcutParse::Invalid).unwrap_err().message(),
        "快捷键不能为空，请输入类似 Ctrl+Shift+Space 的组合。"
    );
    assert_eq!(
        validate_global_shortcut("Ctrl+Shift", ShortcutParse::Invalid).unwrap_err().message(),
        "快捷键必须包含一个普通按键，例如 Space、M 或 F8。"
    );
    assert!(validate_global_shortcut("Ctrl+Shift+Space", ShortcutParse::Parsed { has_modifiers: true }).is_ok());
}

#[test]
fn shortcut_without_modifier_or_unparsable_is_refused() {
    assert_eq!(
        validate_global_shortcut("Space", ShortcutParse::Parsed { has_modifiers: false }).unwrap_err().message(),
        "快捷键必须同时包含修饰键和一个普通按键。"
    );
    assert_eq!(
        validate_global_shortcut("Ctrl+Nope", ShortcutParse::Invalid).unwrap_err().message(),
        "快捷键格式无效，请输入类似 Ctrl+Shift+Space 的组合。"
    );
}

fn continuous(start: &str, end: &str) -> EventConfigurationInput {
    EventConfigurationInput {
        kind: Some("CONTINUOUS".into()),
        reminder_plan: Some("CUSTOM".into()),
        start_at: Some(start.into()),
        end_at: Some(end.into()),
        cadence_value: Some(1),
        cadence_unit: Some("DAY".into()),
        ..EventConfigurationInput::default()
    }
}

#[test]
fn end_half_a_second_before_start_is_refused() {
    let cfg = continuous("2026-09-01T10:00:00.500+00:00", "2026-09-01T10:00:00+00:00");
    match cfg.validate() {
        Err(AppError::Validation(message)) => assert_eq!(message, "结束时间不能早于开始时间"),
        other => panic!("unexpected: {:?}", other),
    }
}

#[test]
fn end_half_a_second_after_start_is_accepted() {
    let cfg = continuous("2026-09-01T10:00:00+00:00", "2026-09-01T10:00:00.500+00:00");
    assert!(cfg.validate().is_ok());
}

fn reading(y: i32, mo: u32, d: u32, h: u32, mi: u32) -> LocalDateTime {
    LocalDateTime { date: date(y, mo, d), seconds: h * 3600 + mi * 60 }
}

#[test]
fn daily_time_from_a_reading_is_today_while_ahead_else_tomorrow() {
    let now = local(2026, 9, 1, 17, 0);
    let today = next_daily_from(now, reading(2026, 9, 1, 17, 0), 18 * 3600).unwrap();
    assert_eq!(today, local(2026, 9, 1, 18, 0));
    let later = local(2026, 9, 1, 18, 15);
    let tomorrow = next_daily_from(later, reading(2026, 9, 1, 18, 15), 18 * 3600).unwrap();
    assert_eq!(tomorrow, local(2026, 9, 2, 18, 0));
}

#[test]
fn repeat_slot_from_a_reading_takes_the_first_time_still_ahead() {
    let times = vec!["17:00".to_string(), "10:00".to_string()];
    let now = local(2026, 9, 1, 12, 0);
    assert_eq!(next_repeat_slot_from(now, reading(2026, 9, 1, 12, 0), &times).unwrap(), local(2026, 9, 1, 17, 0));
    let evening = local(2026, 9, 1, 20, 0);
    assert_eq!(next_repeat_slot_from(evening, reading(2026, 9, 1, 20, 0), &times).unwrap(), local(2026, 9, 2, 10, 0));
}

#[test]
fn must_complete_from_a_reading_after_the_default_time_is_due_then() {
    let now = local(2026, 8, 27, 22, 11);
    let due = must_complete_due_from(now, reading(2026, 8, 27, 22, 11), &settings()).unwrap();
    assert_eq!(due.utc, now);
    assert_eq!(due.local_date, date(2026, 8, 27));
    assert_eq!(due.local_time, 22 * 3600 + 11 * 60);
}

#[test]
fn default_due_from_a_reading_picks_the_workday_at_the_default_time() {
    let thursday = next_default_due_from(reading(2026, 8, 27, 10, 0), &settings()).unwrap();
    assert_eq!(thursday.local_date, date(2026, 8, 27));
    assert_eq!(thursday.local_time, 18 * 3600);
    assert_eq!(thursday.utc, local(2026, 8, 27, 18, 0));
    let friday_evening = next_default_due_from(reading(2026, 8, 28, 19, 0), &settings()).unwrap();
    assert_eq!(friday_evening.local_date, date(2026, 8, 31));
    assert_eq!(friday_evening.utc, local(2026, 8, 31, 18, 0));
}

#[test]
fn the_today_must_due_moment_is_the_default_time_while_ahead_else_now() {
    let now = local(2026, 8, 27, 22, 11);
    let here = reading(2026, 8, 27, 22, 11);
    let target = DueMoment { utc: local(2026, 8, 27, 18, 0), local_date: date(2026, 8, 27), local_time: 18 * 3600 };
    let late = choose_must_due(now, here, target);
    assert_eq!((late.utc, late.local_date, late.local_time), (now, date(2026, 8, 27), 22 * 3600 + 11 * 60));
    let morning = local(2026, 8, 29, 10, 0);
    let saturday = DueMoment { utc: local(2026, 8, 29, 18, 0), local_date: date(2026, 8, 29), local_time: 18 * 3600 };
    let early = choose_must_due(morning, reading(2026, 8, 29, 10, 0), saturday);
    assert_eq!((early.utc, early.local_time), (local(2026, 8, 29, 18, 0), 18 * 3600));
    let due = must_complete_due(morning, &settings()).unwrap();
    assert_eq!((due.local_date, due.local_time), (date(2026, 8, 29), 18 * 3600));
}

#[test]
fn the_first_slot_still_ahead_is_picked_without_catching_up() {
    let today = vec![local(2026, 9, 1, 10, 0), local(2026, 9, 1, 17, 0)];
    let tomorrow = local(2026, 9, 2, 10, 0);
    assert_eq!(choose_slot(local(2026, 9, 1, 9, 0), &today, tomorrow), today[0]);
    assert_eq!(choose_slot(local(2026, 9, 1, 12, 0), &today, tomorrow), today[1]);
    assert_eq!(choose_slot(local(2026, 9, 1, 22, 0), &today, tomorrow), tomorrow);
    let values = vec!["10:00".to_string(), "17:00".to_string()];
    assert_eq!(next_repeat_slot_after(local(2026, 9, 1, 9, 0), &values).unwrap(), local(2026, 9, 1, 10, 0));
    assert_eq!(next_repeat_slot_after(local(2026, 9, 1, 22, 0), &values).unwrap(), local(2026, 9, 2, 10, 0));
}

#[test]
fn a_reminder_in_quiet_hours_waits_for_their_end() {
    let candidate = local(2026, 8, 27, 22, 45);
    let quiet = defer_past_quiet(candidate, reading(2026, 8, 27, 22, 45), 22 * 3600 + 30 * 60, 7 * 3600 + 30 * 60).unwrap();
    assert_eq!(quiet, local(2026, 8, 28, 7, 30));
    let daytime = local(2026, 8, 27, 15, 0);
    assert_eq!(
        defer_past_quiet(daytime, reading(2026, 8, 27, 15, 0), 22 * 3600 + 30 * 60, 7 * 3600 + 30 * 60).unwrap(),
        daytime
    );
}

#[test]
fn dates_are_written_as_chrono_writes_them() {
    for (y, m, d) in [(2026, 9, 1), (42, 1, 2), (-1, 12, 31), (10000, 2, 29), (0, 1, 1), (262142, 12, 31)] {
        let expected = chrono::NaiveDate::from_ymd_opt(y, m, d).unwrap().format("%Y-%m-%d").to_string();
        assert_eq!(shanji::clock::format_ymd(date(y, m, d)), expected);
    }
    assert_eq!(shanji::clock::format_ymd(date(42, 1, 2)), "0042-01-02");
}
