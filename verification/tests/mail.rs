use shanji::domain::{default_event_kind_defaults, Settings};
use shanji::mail::{
    delete_outcome, digest_html, escape_html, event_kind_label, finish_delivery, read_outcome,
    reminder_html, test_html, write_outcome, CredentialStore, KeyringFailure, MailError,
    MailService, SmtpSecurity,
};
use shanji::records::DueNotification;

fn settings() -> Settings {
    Settings {
        default_due_time: "18:00".into(),
        repeat_default_times: vec!["10:00".into(), "17:00".into()],
        workdays: vec![1, 2, 3, 4, 5],
        overtime_interval_minutes: 30,
        quiet_hours_enabled: true,
        quiet_start: "22:30".into(),
        quiet_end: "07:30".into(),
        global_shortcut: "CommandOrControl+Shift+Space".into(),
        notifications_enabled: true,
        autostart_enabled: false,
        persistent_notifications_enabled: true,
        overlay_reminders_enabled: false,
        repeat_unacknowledged_enabled: false,
        unacknowledged_repeat_minutes: 60,
        smtp_enabled: true,
        smtp_host: "smtp.example.com".into(),
        smtp_port: 465,
        smtp_security: "tls".into(),
        smtp_from: "闪记 <sender@example.com>".into(),
        smtp_to: "me@example.com".into(),
        smtp_username: String::new(),
        smtp_repeat_must_complete: false,
        event_kind_defaults: default_event_kind_defaults(),
    }
}

fn notification(title: &str) -> DueNotification {
    DueNotification {
        event_id: "event-1".into(),
        item_id: "item-1".into(),
        title: title.into(),
        due_local_date: "2026-09-03".into(),
        due_local_time: "17:30".into(),
        completion_policy: "NORMAL".into(),
        event_kind: Some("ORDINARY".into()),
        reminder_plan: "ONCE".into(),
        tag_ids: Vec::new(),
    }
}

#[test]
fn credential_replacement_can_be_rolled_back_without_database_storage() {
    let mut service = MailService::with_credentials(CredentialStore::Memory(Some("old-secret".into())));
    let previous = service.password().unwrap();
    service.store_password("new-secret").unwrap();
    assert_eq!(service.password().unwrap().as_deref(), Some("new-secret"));

    service.restore_password(previous.as_deref()).unwrap();
    assert_eq!(service.password().unwrap().as_deref(), Some("old-secret"));
}

#[test]
fn empty_password_is_rejected() {
    let mut service = MailService::with_credentials(CredentialStore::Memory(None));
    assert_eq!(service.store_password("").unwrap_err().code, "smtp_configuration_invalid");
}

#[test]
fn reminder_html_escapes_user_text_and_has_no_remote_content() {
    let html = reminder_html(
        "季度复盘 <script>alert('x')</script> & 跟进",
        "普通",
        "2026-09-03",
        "18:00",
    );
    assert!(html.contains("&lt;script&gt;"));
    assert!(html.contains("&amp; 跟进"));
    assert!(!html.contains("<script>"));
    assert!(!html.contains("http://"));
    assert!(!html.contains("https://"));
    assert!(!html.contains("<img"));
}

#[test]
fn digest_html_uses_a_table_layout_and_escapes_every_title() {
    let notifications = vec![DueNotification {
        event_id: "event-1".into(),
        item_id: "item-1".into(),
        title: "处理 <合同> & 回函".into(),
        due_local_date: "2026-09-03".into(),
        due_local_time: "17:30".into(),
        completion_policy: "NORMAL".into(),
        event_kind: Some("ORDINARY".into()),
        reminder_plan: "ONCE".into(),
        tag_ids: Vec::new(),
    }];
    let html = digest_html("2026-09-03", &notifications);
    assert!(html.contains("role=\"presentation\""));
    assert!(html.contains("处理 &lt;合同&gt; &amp; 回函"));
    assert!(!html.contains("处理 <合同>"));
}

#[test]
fn escaping_replaces_each_markup_character_once() {
    assert_eq!(escape_html("a&b<c>d\"e'f"), "a&amp;b&lt;c&gt;d&quot;e&#39;f");
    assert_eq!(escape_html("&amp;"), "&amp;amp;");
    assert_eq!(escape_html("普通文本"), "普通文本");
}

#[test]
fn digest_counts_its_reminders_and_keeps_their_order() {
    let html = digest_html("2026-09-03", &[notification("第一"), notification("第二")]);
    assert!(html.contains(">2 项待处理<"));
    let first = html.find("第一").unwrap();
    let second = html.find("第二").unwrap();
    assert!(first < second);
    assert_eq!(html.matches("<tr><td style=\"padding:13px 0").count(), 2);
}

#[test]
fn test_mail_body_is_fixed() {
    let html = test_html();
    assert!(html.contains("邮件设置可以投递"));
    assert!(!html.contains("http"));
}

#[test]
fn kind_labels_fall_back_to_not_chosen() {
    assert_eq!(event_kind_label(&Some("TODAY_MUST".into())), "今日必做");
    assert_eq!(event_kind_label(&Some("SOMETHING".into())), "待选择事件类型");
    assert_eq!(event_kind_label(&None), "待选择事件类型");
}

#[test]
fn credential_outcomes_map_missing_entries_and_failures() {
    assert_eq!(read_outcome(Ok("pw".into())).unwrap().as_deref(), Some("pw"));
    assert!(read_outcome(Err(KeyringFailure::NoEntry("none".into()))).unwrap().is_none());
    let error = read_outcome(Err(KeyringFailure::Failed("locked".into()))).unwrap_err();
    assert_eq!(error.code, "credential_store_unavailable");
    assert_eq!(error.user_message, "无法读取邮件密码，请检查系统凭据存储后重试。");
    assert_eq!(error.diagnostic, "locked");
    assert!(delete_outcome(Err(KeyringFailure::NoEntry("none".into()))).is_ok());
    assert_eq!(
        delete_outcome(Err(KeyringFailure::Failed("x".into()))).unwrap_err().user_message,
        "无法删除邮件密码，请检查系统凭据存储后重试。"
    );
    assert_eq!(
        write_outcome(Err(KeyringFailure::NoEntry("x".into()))).unwrap_err().user_message,
        "无法保存邮件密码，请检查系统凭据存储后重试。"
    );
}

#[test]
fn restoring_without_a_previous_password_clears_it() {
    let mut service = MailService::with_credentials(CredentialStore::Memory(None));
    service.store_password("secret").unwrap();
    assert!(service.password_configured().unwrap());
    service.restore_password(None).unwrap();
    assert!(!service.password_configured().unwrap());
}

#[test]
fn reminder_is_prepared_with_escaped_body_and_plain_text() {
    let service = MailService::with_credentials(CredentialStore::Memory(Some("pw".into())));
    let mail = service
        .send_reminder(&settings(), "me@example.com", &notification("交 <报告>"))
        .unwrap();
    assert_eq!(mail.subject, "闪记提醒：交 <报告>");
    assert_eq!(
        mail.text,
        "交 <报告>\n\n类型：普通\n到期时间：2026-09-03 17:30\n\n请在闪记中完成、稍后提醒或确认已看到。"
    );
    assert!(mail.html.contains("交 &lt;报告&gt;"));
    assert_eq!(mail.to, "me@example.com");
    assert_eq!(mail.password, "pw");
    assert_eq!(mail.security, SmtpSecurity::Tls);
    assert_eq!(mail.port, 465);
    assert_eq!(mail.username, "闪记 <sender@example.com>");
}

#[test]
fn missing_password_is_reported_before_anything_is_sent() {
    let service = MailService::with_credentials(CredentialStore::Memory(None));
    let error: MailError = service.send_test(&settings()).unwrap_err();
    assert_eq!(error.code, "smtp_password_missing");
}

#[test]
fn unusable_addresses_and_security_modes_are_configuration_errors() {
    let mut bad_security = settings();
    bad_security.smtp_security = "plain".into();
    let service = MailService::with_credentials(CredentialStore::Memory(Some("pw".into())));
    let error = service.send_test(&bad_security).unwrap_err();
    assert_eq!(error.code, "smtp_configuration_invalid");
    assert_eq!(error.diagnostic, "unsupported SMTP security mode");

    let error = service.send_reminder(&settings(), "not an address", &notification("x")).unwrap_err();
    assert_eq!(error.code, "smtp_configuration_invalid");

    let error = finish_delivery(&settings(), "s", "t", "h", "pw".into(), Err("bad from".into()), Ok("a@b.c".into()))
        .unwrap_err();
    assert_eq!(error.diagnostic, "bad from");
}

#[test]
fn digest_subject_and_text_list_every_reminder() {
    let service = MailService::with_credentials(CredentialStore::Memory(Some("pw".into())));
    let mut starttls = settings();
    starttls.smtp_security = "starttls".into();
    starttls.smtp_username = "login".into();
    let mail = service
        .send_digest(&starttls, "me@example.com", "2026-09-03", &[notification("甲"), notification("乙")])
        .unwrap();
    assert_eq!(mail.subject, "闪记每日摘要：2 项待处理");
    assert_eq!(
        mail.text,
        "2026-09-03 的闪记提醒摘要\n\n- 甲（2026-09-03 17:30）\n- 乙（2026-09-03 17:30）\n\n请回到闪记完成、调整或暂停事项。"
    );
    assert_eq!(mail.security, SmtpSecurity::StartTls);
    assert_eq!(mail.username, "login");
}
