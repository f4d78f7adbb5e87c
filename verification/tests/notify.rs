use shanji::notify::{
    classification_action, classification_body, classification_buttons, classification_text,
    identity_check, persistent_note, platform_status, register_portable_step, reminder_action,
    reminder_body, reminder_due_line, unregister_portable_step, update_body, update_text,
    windows_app_id, windows_registry_path, windows_status, ClassificationAction, PortableStep,
    ReminderAction,
};
use shanji::records::DueNotification;

fn notification() -> DueNotification {
    DueNotification {
        event_id: "event".into(),
        item_id: "item".into(),
        title: "交周报".into(),
        due_local_date: "2026-09-01".into(),
        due_local_time: "18:00".into(),
        completion_policy: "NORMAL".into(),
        event_kind: Some("ORDINARY".into()),
        reminder_plan: "ONCE".into(),
        tag_ids: Vec::new(),
    }
}

#[test]
fn portable_build_without_identity_must_register_first() {
    let status = windows_status(true, false);
    assert_eq!(status.platform, "windows");
    assert_eq!(status.identity_status, "registration_required");
    assert!(!status.can_notify);
    assert_eq!(status.message, "便携版尚未注册系统通知身份，启用后才能显示 Windows 原生横幅。");
    let ready = windows_status(false, true);
    assert_eq!(ready.identity_status, "ready");
    assert!(ready.can_notify);
    let broken = windows_status(false, false);
    assert_eq!(broken.identity_status, "unavailable");
    assert!(!broken.can_notify);
    let other = platform_status("linux", true);
    assert_eq!(other.platform, "linux");
    assert!(other.can_notify && other.portable);
    assert!(other.last_result.is_none());
}

#[test]
fn portable_registration_steps() {
    assert!(matches!(register_portable_step(false, true), PortableStep::Unchanged));
    assert!(matches!(register_portable_step(true, true), PortableStep::Perform));
    match register_portable_step(true, false) {
        PortableStep::Refuse(e) => assert_eq!(e.code, "portable_registration_unsupported"),
        _ => panic!("refused off Windows"),
    }
    match unregister_portable_step(false, true) {
        PortableStep::Refuse(e) => {
            assert_eq!(e.code, "installed_identity_required");
            assert_eq!(e.diagnostic, "安装版通知身份由安装器管理");
        }
        _ => panic!("the installer owns the identity"),
    }
    assert!(matches!(unregister_portable_step(true, true), PortableStep::Perform));
}

#[test]
fn identity_is_checked_before_each_toast() {
    let refused = identity_check(true, false).unwrap_err();
    assert_eq!(refused.code, "identity_registration_required");
    assert_eq!(identity_check(false, false).unwrap(), true);
    assert_eq!(identity_check(true, true).unwrap(), false);
    assert_eq!(windows_app_id(true), "com.shanji.desktop.portable");
    assert_eq!(windows_app_id(false), "com.shanji.desktop");
    assert_eq!(
        windows_registry_path(false),
        "Software\\Classes\\AppUserModelId\\com.shanji.desktop"
    );
}

#[test]
fn toast_texts() {
    assert_eq!(reminder_due_line(&notification()), "到期：2026-09-01 18:00");
    assert_eq!(reminder_body(&notification()), "交周报\n到期：2026-09-01 18:00");
    assert_eq!(classification_text(1), "这条记录还没有选择事件类型");
    assert_eq!(classification_text(4), "有 4 条记录还没有选择事件类型");
    assert_eq!(classification_body(2), "有 2 条记录还没有选择事件类型。打开闪记即可处理。");
    assert_eq!(update_text("1.4.0"), "可以更新到 v1.4.0");
    assert_eq!(update_body("1.4.0"), "可以更新到 v1.4.0。打开闪记查看本次变化。");
    assert_eq!(
        classification_buttons(1),
        vec![("设为普通", "set-ordinary"), ("选择其他事件类型", "choose-type"), ("稍后处理", "snooze-classification")]
    );
    assert_eq!(
        classification_buttons(3),
        vec![("处理待选类型", "choose-type"), ("稍后处理", "snooze-classification")]
    );
}

#[test]
fn toast_actions_are_routed() {
    assert_eq!(reminder_action(Some("complete")), ReminderAction::Complete);
    assert_eq!(reminder_action(Some("snooze")), ReminderAction::Snooze);
    assert_eq!(reminder_action(Some("open")), ReminderAction::Open);
    assert_eq!(reminder_action(None), ReminderAction::Open);
    assert_eq!(classification_action(Some("set-ordinary"), true), ClassificationAction::SetOrdinary);
    assert_eq!(classification_action(Some("set-ordinary"), false), ClassificationAction::Ignore);
    assert_eq!(classification_action(Some("snooze-classification"), false), ClassificationAction::Snooze);
    assert_eq!(classification_action(Some("choose-type"), true), ClassificationAction::Open);
}

#[test]
fn persistent_reminders_note_how_they_were_shown() {
    assert_eq!(persistent_note(false, true, true), None);
    assert_eq!(persistent_note(true, false, false), Some("persistent_not_supported"));
    assert_eq!(persistent_note(true, true, true), Some("persistent_fell_back_to_standard"));
    assert_eq!(persistent_note(true, true, false), None);
}
