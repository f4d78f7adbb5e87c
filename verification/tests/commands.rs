use shanji::commands::{
    app_info, autostart_confirmation, autostart_read_error, autostart_status,
    autostart_switch_error, completed_onboarding, notification_status_with_delivery,
    notification_test_input, notification_test_ready, onboarding_status,
    portable_registration_error, release_page_url, reminder_test_mode,
    reminder_test_notification, reminder_test_reply, restore_request_allowed,
    restore_shortcut_plan, smtp_status, smtp_test_ready, smtp_test_reply, startup_directory_allowed,
    startup_restore_allowed, tray_update_text, update_install_mode, valid_release_version,
    onboarding_after, Platform, ReminderTestMode,
};
use shanji::domain::{default_event_kind_defaults, Item, Settings};
use shanji::error::AppError;
use shanji::notify::{platform_status, windows_status};
use shanji::records::NotificationDelivery;
use shanji::startup::{StartupMode, StartupState, StartupStatus};

fn settings(smtp: bool) -> Settings {
    Settings {
        default_due_time: "18:00".into(),
        repeat_default_times: vec!["10:00".into(), "17:00".into()],
        workdays: vec![1, 2, 3, 4, 5],
        overtime_interval_minutes: 30,
        quiet_hours_enabled: false,
        quiet_start: "22:30".into(),
        quiet_end: "07:30".into(),
        global_shortcut: "Ctrl+Space".into(),
        notifications_enabled: true,
        autostart_enabled: false,
        persistent_notifications_enabled: true,
        overlay_reminders_enabled: false,
        repeat_unacknowledged_enabled: false,
        unacknowledged_repeat_minutes: 60,
        smtp_enabled: smtp,
        smtp_host: "smtp.example.com".into(),
        smtp_port: 465,
        smtp_security: "tls".into(),
        smtp_from: "me@example.com".into(),
        smtp_to: "me@example.com".into(),
        smtp_username: "me".into(),
        smtp_repeat_must_complete: false,
        event_kind_defaults: default_event_kind_defaults(),
    }
}

fn item() -> Item {
    Item {
        id: "abc".into(),
        title: "通知测试".into(),
        notes: String::new(),
        status: "OPEN".into(),
        category_id: None,
        category_name: None,
        due_at: "2026-09-01T10:00:10+00:00".into(),
        due_local_date: "2026-09-01".into(),
        due_local_time: "10:00".into(),
        due_source: "EXPLICIT".into(),
        rollover_policy: "NONE".into(),
        rollover_count: 0,
        completion_policy: "NORMAL".into(),
        repeat_interval_minutes: None,
        next_reminder_at: None,
        reminder_paused: true,
        bypass_app_quiet_hours: false,
        created_at: "2026-09-01T10:00:00+00:00".into(),
        updated_at: "2026-09-01T10:00:00+00:00".into(),
        completed_at: None,
        deleted_at: None,
        event_kind: Some("ONE_TIME".into()),
        reminder_plan: "ONCE".into(),
        important: false,
        time_mode: "SPECIFIED".into(),
        start_at: None,
        end_at: None,
        target_at: None,
        lead_value: None,
        lead_unit: None,
        cadence_value: None,
        cadence_unit: None,
        emphasis_max_per_day: 3,
        repeat_time_mode: "SPECIFIED".into(),
        repeat_times: Vec::new(),
        tags: Vec::new(),
    }
}

fn delivery(result: &str, code: Option<&str>) -> NotificationDelivery {
    NotificationDelivery {
        result: result.into(),
        error_code: code.map(str::to_string),
        attempted_at: "2026-09-01T10:00:00+00:00".into(),
    }
}

#[test]
fn onboarding_is_due_until_the_current_guide_was_seen() {
    let old = onboarding_status(2);
    assert!(old.required);
    assert_eq!((old.completed_version, old.current_version), (2, 3));
    assert!(!onboarding_status(3).required);
    let done = completed_onboarding();
    assert!(!done.required);
    assert_eq!(done.completed_version, 3);
}

#[test]
fn autostart_status_reports_the_system_or_the_stored_setting() {
    let portable = autostart_status(Ok(true), true, false);
    assert_eq!(portable.message, "便携版启动项指向当前程序路径；移动或删除目录后将失效。");
    assert!(portable.enabled && portable.available);
    assert_eq!(autostart_status(Ok(true), false, false).message, "闪记将在登录后以后台模式启动。");
    assert_eq!(autostart_status(Ok(false), false, true).message, "开机启动当前未启用。");
    let unknown = autostart_status(Err("denied".into()), false, true);
    assert!(unknown.enabled && !unknown.available);
    assert_eq!(unknown.message, "denied");
    assert_eq!(autostart_read_error("x"), "无法读取系统开机启动状态：x");
    assert_eq!(autostart_switch_error(true, "x"), "无法启用开机启动：x。原设置保持不变。");
    assert_eq!(autostart_switch_error(false, "x"), "无法关闭开机启动：x。原设置保持不变。");
    assert!(autostart_confirmation(true, Ok(true)).is_ok());
    assert_eq!(
        autostart_confirmation(true, Ok(false)).unwrap_err(),
        "系统没有接受开机启动变更，原设置保持不变。"
    );
    assert_eq!(autostart_confirmation(false, Err("read".into())).unwrap_err(), "read");
}

#[test]
fn previous_shortcut_is_given_back() {
    assert_eq!(restore_shortcut_plan("A", "A", true, false), (false, false));
    assert_eq!(restore_shortcut_plan("A", "B", true, false), (true, true));
    assert_eq!(restore_shortcut_plan("A", "B", false, true), (false, false));
}

#[test]
fn mail_and_notification_status_show_the_last_attempt() {
    let status = smtp_status(true, Some("v".into()), Some(delivery("SUBMITTED", None)));
    assert_eq!(status.last_result.as_deref(), Some("SUBMITTED"));
    assert_eq!(status.last_attempt_at.as_deref(), Some("2026-09-01T10:00:00+00:00"));
    let empty = smtp_status(false, None, None);
    assert!(empty.last_result.is_none() && !empty.password_configured);

    let failed = notification_status_with_delivery(
        windows_status(true, false),
        Some(delivery("FAILED", Some("identity_registration_required"))),
    );
    assert_eq!(failed.message, "便携版通知身份尚未注册，请先点击“启用便携版系统通知”。");
    assert_eq!(failed.last_error_code.as_deref(), Some("identity_registration_required"));
    let submit = notification_status_with_delivery(
        platform_status("linux", false),
        Some(delivery("FAILED", Some("platform_submit_failed"))),
    );
    assert_eq!(submit.message, "最近一次未能提交给系统；请检查 Windows“系统 > 通知”和专注模式后重试。");
    let other = notification_status_with_delivery(platform_status("linux", false), Some(delivery("FAILED", None)));
    assert_eq!(other.message, "最近一次系统通知提交失败，后台会自动重试；可再次运行测试通知核对。");
    let fine = notification_status_with_delivery(platform_status("linux", false), Some(delivery("SUBMITTED", None)));
    assert_eq!(fine.message, "系统通知适配器已就绪；显示行为受操作系统权限与勿扰设置控制。");
    assert_eq!(portable_registration_error(true, "d"), "无法启用便携版系统通知：d");
    assert_eq!(portable_registration_error(false, "d"), "无法撤销便携版系统通知：d");
}

#[test]
fn install_mode_and_about_page() {
    assert_eq!(update_install_mode(true, Platform::Windows), "DOWNLOAD_ONLY");
    assert_eq!(update_install_mode(false, Platform::Windows), "AUTOMATIC");
    assert_eq!(update_install_mode(true, Platform::MacOs), "AUTOMATIC");
    assert_eq!(update_install_mode(false, Platform::OtherUnix { appimage: true }), "AUTOMATIC");
    assert_eq!(update_install_mode(false, Platform::OtherUnix { appimage: false }), "DOWNLOAD_ONLY");
    let info = app_info("1.2.3", false, Platform::Windows);
    assert_eq!(info.name, "闪记");
    assert_eq!(info.version, "1.2.3");
    assert_eq!(info.copyright, "© 2026 闪记");
    assert_eq!(info.update_install_mode, "AUTOMATIC");
}

#[test]
fn release_versions_are_checked_before_use() {
    assert!(valid_release_version("1.4.0-beta.1+build"));
    assert!(!valid_release_version(""));
    assert!(!valid_release_version("1.0/../x"));
    assert!(!valid_release_version(&"1".repeat(65)));
    assert!(valid_release_version(&"1".repeat(64)));
    assert_eq!(
        release_page_url(&Some("1.4.0".into())).unwrap(),
        "https://github.com/your-xunzong/shanji/releases/tag/v1.4.0"
    );
    assert_eq!(release_page_url(&None).unwrap(), "https://github.com/your-xunzong/shanji/releases");
    assert_eq!(release_page_url(&Some("a b".into())).unwrap_err(), "无法识别要打开的版本。");
    assert_eq!(tray_update_text(&Some("1.4.0".into())).unwrap(), "新版本 v1.4.0");
    assert_eq!(tray_update_text(&None).unwrap(), "检查更新");
    assert_eq!(tray_update_text(&Some("版本".into())).unwrap_err(), "无法识别更新版本。");
}

#[test]
fn mail_and_notification_tests_need_their_switches() {
    assert_eq!(smtp_test_ready(&settings(false)).unwrap_err(), "请先启用邮件通知并保存设置。");
    assert!(smtp_test_ready(&settings(true)).is_ok());
    assert_eq!(smtp_test_reply("me@example.com"), "测试邮件已由服务器接受，并发送到 me@example.com。");
    assert_eq!(
        notification_test_ready(false, &platform_status("linux", false)).unwrap_err(),
        "通知总开关已关闭，请先启用系统通知"
    );
    let blocked = windows_status(true, false);
    assert_eq!(notification_test_ready(true, &blocked).unwrap_err(), blocked.message);
    assert!(notification_test_ready(true, &platform_status("linux", false)).is_ok());
}

#[test]
fn notification_test_item_is_due_ten_seconds_later() {
    let input = notification_test_input(1_788_264_000);
    assert_eq!(input.title, "通知测试：闪记提醒功能正常");
    assert_eq!(input.due_at.as_deref(), Some("2026-09-01T12:00:10+00:00"));
    let event = input.event.unwrap();
    assert_eq!(event.kind.as_deref(), Some("ONE_TIME"));
    assert_eq!(event.reminder_plan.as_deref(), Some("ONCE"));
}

#[test]
fn reminder_tests_show_a_persistent_or_overlay_reminder() {
    assert_eq!(reminder_test_mode("persistent").unwrap(), ReminderTestMode::Persistent);
    assert_eq!(reminder_test_mode("overlay").unwrap(), ReminderTestMode::Overlay);
    assert_eq!(reminder_test_mode("banner").unwrap_err(), "未知的提醒测试方式");
    let persistent = reminder_test_notification(ReminderTestMode::Persistent, item());
    assert_eq!(persistent.event_id, "test-persistent-abc");
    assert_eq!(persistent.completion_policy, "MUST_COMPLETE_TODAY");
    assert_eq!(persistent.event_kind.as_deref(), Some("TODAY_MUST"));
    assert_eq!(persistent.reminder_plan, "FORCE");
    let overlay = reminder_test_notification(ReminderTestMode::Overlay, item());
    assert_eq!(overlay.event_id, "test-overlay-abc");
    assert_eq!(overlay.event_kind.as_deref(), Some("ONE_TIME"));
    assert_eq!(reminder_test_reply(ReminderTestMode::Overlay), "置顶提醒窗已显示；关闭窗口不会把事项标记完成。");
}

fn startup(mode: StartupMode) -> StartupState {
    StartupState {
        status: StartupStatus {
            mode,
            target_path: "/data/shanji.db".into(),
            message: String::new(),
            current: None,
            recovery_candidates: Vec::new(),
            diagnostic: String::new(),
        },
        target_path: "/data/shanji.db".into(),
        candidate_paths: vec!["/data/backups/old.db".into()],
    }
}

#[test]
fn data_locations_are_checked_before_use() {
    let allowed = vec!["/data/backups/a.db".to_string()];
    assert!(restore_request_allowed("/data/backups/a.db", &allowed).is_ok());
    assert_eq!(
        restore_request_allowed("/tmp/evil.db", &allowed).unwrap_err(),
        "这份数据不在闪记识别的恢复位置中，请重新刷新后选择。"
    );
    match startup_restore_allowed(&startup(StartupMode::Ready), "/data/backups/old.db") {
        Err(AppError::Validation(message)) => assert_eq!(message, "当前数据已经正常打开，无需执行启动恢复。"),
        other => panic!("unexpected {other:?}"),
    }
    assert!(startup_restore_allowed(&startup(StartupMode::RecoveryRequired), "/data/backups/old.db").is_err());
    assert!(startup_directory_allowed(&startup(StartupMode::Blocked), "/data/shanji.db").is_ok());
    assert!(startup_directory_allowed(&startup(StartupMode::Blocked), "/data/backups/old.db").is_ok());
    assert_eq!(
        startup_directory_allowed(&startup(StartupMode::Blocked), "/etc").unwrap_err(),
        "这不是闪记当前识别的数据位置。"
    );
}

#[test]
fn onboarding_version_only_moves_forward() {
    let stored = 0;
    assert_eq!(stored, 0);
    let stored = onboarding_after(stored, 2);
    let stored = onboarding_after(stored, 1);
    assert_eq!(stored, 2);
}
