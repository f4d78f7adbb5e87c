use shanji::error::{AppError, DatabaseFailure, IoFailure, IoKind, SqliteCode};
use shanji::records::DataFileSummary;
use shanji::startup::{
    assess_database_startup, blocked_status, check_restore_candidate, ensure_recovery_candidate_allowed, error_kind,
    startup_state, valid_recovery_candidates, CandidateInspection, StartupMode, StartupState,
};

fn summary(path: &str, items: u64, updated: Option<&str>) -> DataFileSummary {
    DataFileSummary {
        path: path.into(),
        item_count: items,
        schema_version: 7,
        updated_at: updated.map(str::to_string),
        has_draft: false,
        has_custom_settings: false,
    }
}

fn found(path: &str, s: Option<DataFileSummary>) -> CandidateInspection {
    CandidateInspection { path: path.into(), summary: s }
}

fn unreadable() -> AppError {
    AppError::Database(DatabaseFailure { code: Some(SqliteCode::Other), text: "file is not a database".into() })
}

#[test]
fn missing_target_with_old_data_requires_recovery() {
    let candidates = vec![found("/old/shanji.db", Some(summary("/old/shanji.db", 2, Some("2026-08-01"))))];
    let status = assess_database_startup("/new/shanji.db", false, 0, Err(unreadable()), &candidates);
    assert_eq!(status.mode, StartupMode::RecoveryRequired);
    assert_eq!(status.recovery_candidates[0].item_count, 2);
    assert!(status.current.is_none());
    assert_eq!(
        status.diagnostic,
        "startup_state=legacy_data_found; target_exists=false; target_bytes=0; current_schema=unknown; candidates=1; app_schema=7"
    );
}

#[test]
fn empty_target_never_wins_over_non_empty_old_data() {
    let candidates = vec![found("/old.db", Some(summary("/old.db", 1, None)))];
    let status = assess_database_startup("/current.db", true, 4096, Ok(summary("/current.db", 0, None)), &candidates);
    assert_eq!(status.mode, StartupMode::RecoveryRequired);
    assert_eq!(status.current.unwrap().item_count, 0);
}

#[test]
fn old_draft_is_recoverable_even_without_items() {
    let mut draft = summary("/old.db", 0, None);
    draft.has_draft = true;
    let status = assess_database_startup("/current.db", false, 0, Err(unreadable()), &[found("/old.db", Some(draft))]);
    assert_eq!(status.mode, StartupMode::RecoveryRequired);
    assert_eq!(status.recovery_candidates[0].item_count, 0);
    assert!(status.recovery_candidates[0].has_draft);
}

#[test]
fn completed_settings_are_recoverable_without_items() {
    let mut settings = summary("/old.db", 0, None);
    settings.has_custom_settings = true;
    let status = assess_database_startup("/current.db", false, 0, Err(unreadable()), &[found("/old.db", Some(settings))]);
    assert_eq!(status.mode, StartupMode::RecoveryRequired);
    assert!(status.recovery_candidates[0].has_custom_settings);
}

#[test]
fn current_draft_does_not_hide_an_old_database_with_items() {
    let mut current = summary("/current.db", 0, None);
    current.has_draft = true;
    let candidates = vec![found("/old.db", Some(summary("/old.db", 3, None)))];
    let status = assess_database_startup("/current.db", true, 4096, Ok(current), &candidates);
    assert_eq!(status.mode, StartupMode::RecoveryRequired);
    assert!(status.current.unwrap().has_draft);
    assert_eq!(status.recovery_candidates[0].item_count, 3);
}

#[test]
fn unused_empty_database_is_not_presented_as_old_user_data() {
    let candidates = vec![found("/unused.db", Some(summary("/unused.db", 0, None)))];
    let status = assess_database_startup("/current.db", false, 0, Err(unreadable()), &candidates);
    assert_eq!(status.mode, StartupMode::Ready);
    assert!(status.recovery_candidates.is_empty());
}

#[test]
fn unused_or_unreadable_candidates_are_not_offered() {
    let candidates = vec![
        found("/unused.db", Some(summary("/unused.db", 0, None))),
        found("/broken.db", None),
        found("/current.db", Some(summary("/current.db", 5, None))),
    ];
    let status = assess_database_startup("/current.db", false, 0, Err(unreadable()), &candidates);
    assert_eq!(status.mode, StartupMode::Ready);
    assert!(status.recovery_candidates.is_empty());
    assert_eq!(status.message, "");
}

#[test]
fn non_empty_current_database_starts_normally() {
    let candidates = vec![found("/old.db", Some(summary("/old.db", 2, None)))];
    let status = assess_database_startup("/current.db", true, 8192, Ok(summary("/current.db", 1, None)), &candidates);
    assert_eq!(status.mode, StartupMode::Ready);
    assert!(status.recovery_candidates.is_empty());
}

#[test]
fn unreadable_target_blocks_writes() {
    let status = assess_database_startup("/shanji.db", true, 21, Err(unreadable()), &[]);
    assert_eq!(status.mode, StartupMode::Blocked);
    assert!(status.message.contains("停止写入"));
}

#[test]
fn database_from_a_newer_app_version_is_never_opened_for_writing() {
    let mut newer = summary("/shanji.db", 1, None);
    newer.schema_version = 8;
    let status = assess_database_startup("/shanji.db", true, 9000, Ok(newer), &[]);
    assert_eq!(status.mode, StartupMode::Blocked);
    assert!(status.message.contains("更新版本"));
    assert!(status.diagnostic.contains("current_schema=8"));
}

#[test]
fn candidates_run_newest_first_without_repeats() {
    let candidates = vec![
        found("/a.db", Some(summary("/a.db", 1, Some("2026-01-01")))),
        found("/b.db", Some(summary("/b.db", 1, Some("2026-03-01")))),
        found("/c.db", Some(summary("/c.db", 1, None))),
        found("/b.db", Some(summary("/b.db", 1, Some("2026-03-01")))),
        found("/d.db", Some(summary("/d.db", 1, Some("2026-02-01")))),
    ];
    let offered = valid_recovery_candidates("/target.db", &candidates);
    let paths: Vec<&str> = offered.iter().map(|s| s.path.as_str()).collect();
    assert_eq!(paths, vec!["/b.db", "/d.db", "/a.db", "/c.db"]);
}

#[test]
fn storage_errors_are_classified() {
    let io = |kind, os_code| AppError::Io(IoFailure { kind, os_code, text: String::new() });
    assert_eq!(error_kind(&io(IoKind::PermissionDenied, None)), "permission_denied");
    assert_eq!(error_kind(&io(IoKind::StorageFull, None)), "disk_full");
    assert_eq!(error_kind(&io(IoKind::Other, Some(112))), "disk_full");
    assert_eq!(error_kind(&io(IoKind::Other, Some(5))), "file_error");
    let db = |code| AppError::Database(DatabaseFailure { code, text: String::new() });
    assert_eq!(error_kind(&db(Some(SqliteCode::ReadOnly))), "database_read_only");
    assert_eq!(error_kind(&db(Some(SqliteCode::DatabaseCorrupt))), "database_corrupt");
    assert_eq!(error_kind(&db(None)), "database_error");
    assert_eq!(error_kind(&AppError::ItemNotFound), "unexpected_item_error");
    let status = blocked_status("/x.db", Vec::new(), None, &db(Some(SqliteCode::DiskFull)), true, 1);
    assert_eq!(status.message, "原数据仍在，但可用空间不足，无法安全完成备份或升级。释放空间后可以重试。");
}

#[test]
fn recovery_is_only_allowed_from_offered_places() {
    let candidates = vec![found("/old/shanji.db", Some(summary("/old/shanji.db", 2, None)))];
    let status = assess_database_startup("/new/shanji.db", false, 0, Err(unreadable()), &candidates);
    let state = startup_state(status, "/new/shanji.db".into(), vec!["/old/shanji.db".into()]);
    assert!(ensure_recovery_candidate_allowed(&state, "/old/shanji.db").is_ok());
    assert!(ensure_recovery_candidate_allowed(&state, "/old//shanji.db").is_ok());
    assert_eq!(
        ensure_recovery_candidate_allowed(&state, "/elsewhere.db").unwrap_err().message(),
        "这份数据不在闪记已校验的恢复位置中，请重新检查后选择"
    );
    let ready = StartupState::ready("/new/shanji.db".into());
    assert_eq!(ready.status.diagnostic, "startup_state=ready; app_schema=7");
    assert!(ensure_recovery_candidate_allowed(&ready, "/old/shanji.db").is_err());
}

#[test]
fn restoring_needs_another_readable_file_with_items_from_this_version() {
    let message = |r: Result<DataFileSummary, AppError>| r.unwrap_err().message();
    assert_eq!(
        message(check_restore_candidate("/data/shanji.db", "/data/shanji.db", Ok(summary("/data/shanji.db", 3, None)))),
        "当前数据无需恢复"
    );
    assert!(matches!(
        check_restore_candidate("/data/shanji.db", "/old/shanji.db", Err(unreadable())),
        Err(AppError::Database(_))
    ));
    assert_eq!(
        message(check_restore_candidate("/data/shanji.db", "/old/shanji.db", Ok(summary("/old/shanji.db", 0, None)))),
        "所选数据中没有可恢复的事项"
    );
    let mut newer = summary("/old/shanji.db", 2, None);
    newer.schema_version = 8;
    assert_eq!(
        message(check_restore_candidate("/data/shanji.db", "/old/shanji.db", Ok(newer))),
        "这份数据来自更高版本的闪记，请先升级应用后再恢复"
    );
    let ok = check_restore_candidate("/data/shanji.db", "/old/shanji.db", Ok(summary("/old/shanji.db", 2, None))).unwrap();
    assert_eq!(ok.item_count, 2);
}
