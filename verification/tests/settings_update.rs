use shanji::domain::{default_event_kind_defaults, Settings, UpdateSettingsInput};
use shanji::settings_update::{SettingsAction, SettingsEvent, SettingsStep, SettingsUpdate};

fn settings(shortcut: &str, autostart: bool, smtp: bool) -> Settings {
    Settings {
        default_due_time: "18:00".into(),
        repeat_default_times: vec!["10:00".into(), "17:00".into()],
        workdays: vec![1, 2, 3, 4, 5],
        overtime_interval_minutes: 30,
        quiet_hours_enabled: false,
        quiet_start: "22:30".into(),
        quiet_end: "07:30".into(),
        global_shortcut: shortcut.into(),
        notifications_enabled: true,
        autostart_enabled: autostart,
        persistent_notifications_enabled: true,
        overlay_reminders_enabled: false,
        repeat_unacknowledged_enabled: false,
        unacknowledged_repeat_minutes: 60,
        smtp_enabled: smtp,
        smtp_host: "smtp.example.com".into(),
        smtp_port: 465,
        smtp_security: "tls".into(),
        smtp_from: "me@example.com".into(),
        smtp_to: "me@example.com".into(),
        smtp_username: "me".into(),
        smtp_repeat_must_complete: false,
        event_kind_defaults: default_event_kind_defaults(),
    }
}

fn input(shortcut: &str, autostart: bool, smtp: bool, password: Option<&str>) -> UpdateSettingsInput {
    UpdateSettingsInput {
        default_due_time: "18:00".into(),
        repeat_default_times: vec!["10:00".into(), "17:00".into()],
        workdays: vec![1, 2, 3, 4, 5],
        overtime_interval_minutes: 30,
        quiet_hours_enabled: false,
        quiet_start: "22:30".into(),
        quiet_end: "07:30".into(),
        global_shortcut: shortcut.into(),
        notifications_enabled: true,
        autostart_enabled: autostart,
        update_existing_default_items: false,
        persistent_notifications_enabled: true,
        overlay_reminders_enabled: false,
        unacknowledged_repeat_minutes: 60,
        smtp_enabled: smtp,
        smtp_host: "smtp.example.com".into(),
        smtp_port: 465,
        smtp_security: "tls".into(),
        smtp_from: "me@example.com".into(),
        smtp_to: "me@example.com".into(),
        smtp_username: "me".into(),
        smtp_repeat_must_complete: false,
        smtp_password: password.map(str::to_string),
        event_kind_defaults: default_event_kind_defaults(),
    }
}

fn perform(step: SettingsStep) -> SettingsAction {
    match step {
        SettingsStep::Perform(action) => action,
        SettingsStep::Finish { .. } => panic!("the update should go on"),
    }
}

fn is(action: &SettingsAction, expected: &str) -> bool {
    format!("{action:?}").starts_with(expected)
}

#[test]
fn unchanged_settings_are_saved_directly() {
    let previous = settings("Ctrl+Space", false, false);
    let (mut update, step) = SettingsUpdate::begin(&previous, &input("Ctrl+Space", false, false, None));
    assert!(is(&perform(step), "Save"));
    match update.step(SettingsEvent::Saved(Ok(previous.clone()))) {
        SettingsStep::Finish { follow_up, result } => {
            assert!(result.is_ok());
            assert_eq!(follow_up.len(), 2);
            assert!(is(&follow_up[0], "ClearShortcutWarning"));
            assert!(is(&follow_up[1], "WakeScheduler"));
        }
        SettingsStep::Perform(_) => panic!("saving ends the update"),
    }
}

#[test]
fn mail_without_any_password_is_refused() {
    let previous = settings("Ctrl+Space", false, false);
    let (mut update, step) = SettingsUpdate::begin(&previous, &input("Ctrl+Space", false, true, Some("")));
    assert!(is(&perform(step), "ReadPassword"));
    match update.step(SettingsEvent::Password(Ok(None))) {
        SettingsStep::Finish { follow_up, result } => {
            assert!(follow_up.is_empty());
            assert_eq!(result.unwrap_err(), "启用邮件通知前，请填写 SMTP 密码并保存。");
        }
        SettingsStep::Perform(_) => panic!("refused"),
    }
}

#[test]
fn taken_shortcut_gives_the_previous_one_back() {
    let previous = settings("Ctrl+Space", false, false);
    let (mut update, step) = SettingsUpdate::begin(&previous, &input("Alt+Q", false, false, None));
    assert!(is(&perform(step), "QueryShortcut(\"Ctrl+Space\")"));
    assert!(is(&perform(update.step(SettingsEvent::Flag(true))), "UnregisterShortcut(\"Ctrl+Space\")"));
    assert!(is(&perform(update.step(SettingsEvent::Outcome(Ok(())))), "RegisterShortcut(\"Alt+Q\")"));
    match update.step(SettingsEvent::Outcome(Err("busy".into()))) {
        SettingsStep::Finish { follow_up, result } => {
            assert_eq!(
                result.unwrap_err(),
                "快捷键“Alt+Q”已被其他程序占用或被系统保留，请换一个组合；原快捷键仍然有效。"
            );
            assert_eq!(follow_up.len(), 1);
            assert!(is(&follow_up[0], "RegisterShortcut(\"Ctrl+Space\")"));
        }
        SettingsStep::Perform(_) => panic!("refused"),
    }
}

#[test]
fn failed_save_undoes_shortcut_autostart_and_password() {
    let previous = settings("Ctrl+Space", false, true);
    let (mut update, step) = SettingsUpdate::begin(&previous, &input("Alt+Q", true, true, Some("new-secret")));
    assert!(is(&perform(step), "ReadPassword"));
    assert!(is(&perform(update.step(SettingsEvent::Password(Ok(Some("old-secret".into()))))), "ReadAutostart"));
    assert!(is(&perform(update.step(SettingsEvent::Autostart(Ok(false)))), "QueryShortcut"));
    assert!(is(&perform(update.step(SettingsEvent::Flag(false))), "RegisterShortcut(\"Alt+Q\")"));
    assert!(is(&perform(update.step(SettingsEvent::Outcome(Ok(())))), "SetAutostart(true)"));
    assert!(is(&perform(update.step(SettingsEvent::Outcome(Ok(())))), "StorePassword(\"new-secret\")"));
    assert!(is(&perform(update.step(SettingsEvent::Outcome(Ok(())))), "Save"));
    match update.step(SettingsEvent::Saved(Err("disk full".into()))) {
        SettingsStep::Finish { follow_up, result } => {
            assert_eq!(result.unwrap_err(), "disk full");
            assert_eq!(follow_up.len(), 3);
            assert!(is(&follow_up[0], "RestorePassword(Some(\"old-secret\"))"));
            assert!(is(&follow_up[1], "SetAutostart(false)"));
            assert!(is(&follow_up[2], "RestoreShortcut"));
        }
        SettingsStep::Perform(_) => panic!("a failed save ends the update"),
    }
}

#[test]
fn failed_password_store_restores_autostart_and_shortcut() {
    let previous = settings("Ctrl+Space", true, false);
    let (mut update, step) = SettingsUpdate::begin(&previous, &input("Alt+Q", false, false, Some("pw")));
    assert!(is(&perform(step), "ReadPassword"));
    assert!(is(&perform(update.step(SettingsEvent::Password(Ok(None)))), "ReadAutostart"));
    assert!(is(&perform(update.step(SettingsEvent::Autostart(Ok(true)))), "QueryShortcut"));
    assert!(is(&perform(update.step(SettingsEvent::Flag(true))), "UnregisterShortcut"));
    assert!(is(&perform(update.step(SettingsEvent::Outcome(Ok(())))), "RegisterShortcut"));
    assert!(is(&perform(update.step(SettingsEvent::Outcome(Ok(())))), "SetAutostart(false)"));
    assert!(is(&perform(update.step(SettingsEvent::Outcome(Ok(())))), "StorePassword"));
    match update.step(SettingsEvent::Outcome(Err("钥匙串不可用".into()))) {
        SettingsStep::Finish { follow_up, result } => {
            assert_eq!(result.unwrap_err(), "钥匙串不可用");
            assert_eq!(follow_up.len(), 2);
            assert!(is(&follow_up[0], "SetAutostart(true)"));
            assert!(is(&follow_up[1], "RestoreShortcut"));
        }
        SettingsStep::Perform(_) => panic!("refused"),
    }
}

#[test]
fn released_shortcut_that_cannot_be_freed_changes_nothing() {
    let previous = settings("Ctrl+Space", false, false);
    let (mut update, step) = SettingsUpdate::begin(&previous, &input("Alt+Q", false, false, None));
    assert!(is(&perform(step), "QueryShortcut"));
    assert!(is(&perform(update.step(SettingsEvent::Flag(true))), "UnregisterShortcut"));
    match update.step(SettingsEvent::Outcome(Err("denied".into()))) {
        SettingsStep::Finish { follow_up, result } => {
            assert!(follow_up.is_empty());
            assert_eq!(result.unwrap_err(), "无法释放原快捷键；设置没有更改，请重启闪记后再试。");
        }
        SettingsStep::Perform(_) => panic!("refused"),
    }
}
