use std::path::PathBuf;

use shanji::shell::{
    backups_directory, completes_double_click, database_candidates_in, keep_candidate,
    overlay_position, pending_menu_text, portable_flag_path, resolve_database_path_from,
    tray_action, window_wanted, TrayAction,
};

#[test]
fn installed_database_path_does_not_follow_the_executable() {
    let root = tempfile::tempdir().expect("create test directory");
    let first_executable = root.path().join("installed/Shanji/shanji.exe");
    let moved_executable = root.path().join("moved/Shanji/shanji.exe");
    let app_data = root.path().join("app-data/com.shanji.desktop");

    assert_eq!(
        PathBuf::from(resolve_database_path_from(
            first_executable.to_str().unwrap(),
            false,
            app_data.to_str().unwrap()
        )),
        app_data.join("shanji.db")
    );
    assert_eq!(
        PathBuf::from(resolve_database_path_from(
            moved_executable.to_str().unwrap(),
            false,
            app_data.to_str().unwrap()
        )),
        app_data.join("shanji.db")
    );
    assert_eq!(
        PathBuf::from(resolve_database_path_from(
            moved_executable.to_str().unwrap(),
            true,
            app_data.to_str().unwrap()
        )),
        moved_executable
            .parent()
            .expect("executable has parent directory")
            .join("data/shanji.db")
    );
}

#[test]
fn candidate_files_exclude_the_current_file_and_pending_copies() {
    assert!(keep_candidate("/data/backups/shanji-1.db", "/data/shanji.db", true));
    assert!(!keep_candidate("/data/shanji.db", "/data/shanji.db", true));
    assert!(!keep_candidate("/data/backups/shanji-1.db", "/data/shanji.db", false));
    assert!(!keep_candidate("/data/shanji.db.restore-pending", "/data/shanji.db", true));
    assert!(!keep_candidate("/data/x.migration-pending.db", "/data/shanji.db", true));
    assert_eq!(
        database_candidates_in("/data"),
        vec!["/data/shanji.db".to_string(), "/data/shanji.db.backup-before-v3".to_string()]
    );
    assert_eq!(backups_directory("/data"), "/data/backups");
    assert_eq!(portable_flag_path("/opt/shanji/shanji").as_deref(), Some("/opt/shanji/portable.flag"));
}

#[test]
fn tray_and_windows() {
    assert_eq!(pending_menu_text(0), "待确认提醒（0）");
    assert_eq!(pending_menu_text(12), "待确认提醒（12）");
    assert_eq!(tray_action("capture"), TrayAction::Capture);
    assert_eq!(tray_action("reminders"), TrayAction::Reminders);
    assert_eq!(tray_action("quit"), TrayAction::Quit);
    assert_eq!(tray_action("other"), TrayAction::Ignore);
    assert!(completes_double_click(Some(450)));
    assert!(!completes_double_click(Some(451)));
    assert!(!completes_double_click(None));
    assert!(window_wanted("capture", false));
    assert!(!window_wanted("capture", true));
    assert!(window_wanted("main", true));
}

#[test]
fn overlay_sits_in_the_bottom_right_corner() {
    assert_eq!(overlay_position(0, 0, 1920, 1080, 360, 200), (1920 - 384, 1080 - 256));
    assert_eq!(overlay_position(100, -50, 300, 200, 360, 200), (100, -50));
}

#[test]
fn trimming_removes_unicode_white_space_at_both_ends() {
    let text = "\u{3000}\u{85} 待办 事项\u{2009}\t\u{a0}";
    assert_eq!(shanji::text::trim(text), text.trim());
    assert_eq!(shanji::text::trim(text), "待办 事项");
    assert_eq!(shanji::text::trim("\u{200b}x"), "\u{200b}x");
}
