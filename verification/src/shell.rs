//! The desktop shell around the store: where the data file lives, which
//! files are offered for recovery, the tray menu, the overlay window's
//! place and which windows are built.
use vstd::prelude::*;

use crate::text::{concat, contains_seq, owned, str_eq, u64_to_string, decimal_seq};

verus! {

// ---------------------------------------------------------------------------
// Paths
// ---------------------------------------------------------------------------
/// The directory holding a path (`Path::parent`), as text.
pub uninterp spec fn std_path_parent(p: Seq<char>) -> Option<Seq<char>>;

/// A path with a relative path appended (`Path::join`), as text.
pub uninterp spec fn std_path_join(base: Seq<char>, rest: Seq<char>) -> Seq<char>;

/// The last component of a path (`Path::file_name`), when it has one that
/// is valid text.
pub uninterp spec fn std_path_file_name(p: Seq<char>) -> Option<Seq<char>>;

/// The directory holding a path (`std::path::Path::parent`).
#[verifier::external_body]
fn path_parent(p: &str) -> (r: Option<String>)
    ensures
        match r {
            Some(d) => std_path_parent(p@) == Some(d@),
            None => std_path_parent(p@) is None,
        },
{
    std::path::Path::new(p).parent().map(|d| d.to_string_lossy().into_owned())
}

/// Appends a relative path (`std::path::Path::join`).
#[verifier::external_body]
fn path_join(base: &str, rest: &str) -> (r: String)
    ensures
        r@ == std_path_join(base@, rest@),
{
    std::path::Path::new(base).join(rest).to_string_lossy().into_owned()
}

/// The last component of a path (`std::path::Path::file_name`), when it is
/// valid text.
#[verifier::external_body]
fn path_file_name(p: &str) -> (r: Option<String>)
    ensures
        match r {
            Some(n) => std_path_file_name(p@) == Some(n@),
            None => std_path_file_name(p@) is None,
        },
{
    std::path::Path::new(p).file_name().and_then(|n| n.to_str()).map(|n| n.to_string())
}

/// The data file's name.
pub const DATABASE_FILE: &'static str = "shanji.db";

/// Where the data file lives: beside the program, in `data/`, for the
/// portable build (when the program has a directory); otherwise in the
/// application's data directory, wherever the program was installed.
pub open spec fn database_path_spec(executable: Seq<char>, portable: bool, app_data: Seq<char>) -> Seq<
    char,
> {
    if portable && std_path_parent(executable) is Some {
        std_path_join(std_path_join(std_path_parent(executable)->Some_0, "data"@), DATABASE_FILE@)
    } else {
        std_path_join(app_data, DATABASE_FILE@)
    }
}

/// Where the data file lives.
pub fn resolve_database_path_from(executable: &str, portable: bool, app_data: &str) -> (r: String)
    ensures
        r@ == database_path_spec(executable@, portable, app_data@),
{
    if portable {
        if let Some(directory) = path_parent(executable) {
            let data = path_join(directory.as_str(), "data");
            return path_join(data.as_str(), DATABASE_FILE);
        }
    }
    path_join(app_data, DATABASE_FILE)
}

/// The marker file whose presence beside the program makes it portable.
pub const PORTABLE_FLAG: &'static str = "portable.flag";

/// Where the portable marker would be: beside the program.
pub fn portable_flag_path(executable: &str) -> (r: Option<String>)
    ensures
        match std_path_parent(executable@) {
            Some(d) => r matches Some(p) && p@ == std_path_join(d, PORTABLE_FLAG@),
            None => r is None,
        },
{
    match path_parent(executable) {
        Some(directory) => Some(path_join(directory.as_str(), PORTABLE_FLAG)),
        None => None,
    }
}

/// The files of a directory that may hold earlier data, besides those in
/// its `backups` directory: the data file and the copy kept before the
/// third schema.
pub fn database_candidates_in(directory: &str) -> (r: Vec<String>)
    ensures
        r@.len() == 2,
        r@[0]@ == std_path_join(directory@, DATABASE_FILE@),
        r@[1]@ == std_path_join(directory@, "shanji.db.backup-before-v3"@),
{
    let mut v: Vec<String> = Vec::new();
    v.push(path_join(directory, DATABASE_FILE));
    v.push(path_join(directory, "shanji.db.backup-before-v3"));
    v
}

/// The directory of backups inside a data directory.
pub fn backups_directory(directory: &str) -> (r: String)
    ensures
        r@ == std_path_join(directory@, "backups"@),
{
    path_join(directory, "backups")
}

/// A file is offered for recovery when it is not the data file in use, is
/// a regular file, and is not a file half-way through a restore or an
/// upgrade.
pub open spec fn offered_for_recovery(path: Seq<char>, current: Seq<char>, is_file: bool) -> bool {
    &&& !crate::startup::std_path_eq(path, current)
    &&& is_file
    &&& !(std_path_file_name(path) matches Some(n) && (contains_seq(n, "restore-pending"@)
        || contains_seq(n, "migration-pending"@)))
}

/// Whether a found file is offered for recovery.
pub fn keep_candidate(path: &str, current: &str, is_file: bool) -> (r: bool)
    ensures
        r == offered_for_recovery(path@, current@, is_file),
{
    if crate::startup::same_path(path, current) || !is_file {
        return false;
    }
    match path_file_name(path) {
        None => true,
        Some(name) => {
            let chars = crate::text::chars_of(name.as_str());
            let restore = crate::text::chars_of("restore-pending");
            let migration = crate::text::chars_of("migration-pending");
            let pending = crate::text::find_first(&chars, &restore, 0).is_some()
                || crate::text::find_first(&chars, &migration, 0).is_some();
            proof {
                crate::text::lemma_find_spec_contains(chars@, restore@);
                crate::text::lemma_find_spec_contains(chars@, migration@);
            }
            !pending
        },
    }
}

// ---------------------------------------------------------------------------
// Tray and windows
// ---------------------------------------------------------------------------
/// The tray entry for reminders waiting to be confirmed.
pub fn pending_menu_text(count: usize) -> (r: String)
    ensures
        r@ == "待确认提醒（"@ + decimal_seq(count as nat) + "）"@,
{
    let n = u64_to_string(count as u64);
    let a = concat("待确认提醒（", n.as_str());
    concat(a.as_str(), "）")
}

/// What a tray menu entry asks for.
#[derive(Debug, Clone, Copy, PartialEq, Eq, Structural)]
pub enum TrayAction {
    Capture,
    Show,
    /// Show the window and open the reminder center.
    Reminders,
    /// Show the window and open the update panel.
    Updates,
    Quit,
    Ignore,
}

/// Reads a tray menu entry's id.
pub fn tray_action(id: &str) -> (r: TrayAction)
    ensures
        r == (if id@ == "capture"@ {
            TrayAction::Capture
        } else if id@ == "show"@ {
            TrayAction::Show
        } else if id@ == "reminders"@ {
            TrayAction::Reminders
        } else if id@ == "updates"@ {
            TrayAction::Updates
        } else if id@ == "quit"@ {
            TrayAction::Quit
        } else {
            TrayAction::Ignore
        }),
{
    if str_eq(id, "capture") {
        TrayAction::Capture
    } else if str_eq(id, "show") {
        TrayAction::Show
    } else if str_eq(id, "reminders") {
        TrayAction::Reminders
    } else if str_eq(id, "updates") {
        TrayAction::Updates
    } else if str_eq(id, "quit") {
        TrayAction::Quit
    } else {
        TrayAction::Ignore
    }
}

/// Two left clicks on the tray icon at most this far apart open the window.
pub const DOUBLE_CLICK_MILLIS: u64 = 450;

/// Whether a click, coming `since_last` milliseconds after the previous
/// one (if any was remembered), completes a double click.
pub fn completes_double_click(since_last: Option<u64>) -> (r: bool)
    ensures
        r == (since_last matches Some(ms) && ms <= DOUBLE_CLICK_MILLIS),
{
    match since_last {
        Some(ms) => ms <= DOUBLE_CLICK_MILLIS,
        None => false,
    }
}

/// Whether a configured window is built: every window normally, only the
/// main window while the data is being recovered.
pub fn window_wanted(label: &str, recovery_only: bool) -> (r: bool)
    ensures
        r == (!recovery_only || label@ == "main"@),
{
    !recovery_only || str_eq(label, "main")
}

/// The top-left corner of the overlay reminder: 24 pixels from the right
/// edge and 56 from the bottom of the monitor (pressed against the left or
/// top edge when the window does not fit).
pub open spec fn overlay_offset(monitor: u32, window: u32, margin: u32) -> int {
    let free = monitor - (window + margin);
    if free < 0 {
        0
    } else if free > i32::MAX {
        0
    } else {
        free
    }
}

/// The overlay window's position on its monitor.
pub fn overlay_position(
    monitor_x: i32,
    monitor_y: i32,
    monitor_width: u32,
    monitor_height: u32,
    window_width: u32,
    window_height: u32,
) -> (r: (i32, i32))
    requires
        window_width + 24 <= u32::MAX,
        window_height + 56 <= u32::MAX,
        i32::MIN <= monitor_x + overlay_offset(monitor_width, window_width, 24) <= i32::MAX,
        i32::MIN <= monitor_y + overlay_offset(monitor_height, window_height, 56) <= i32::MAX,
    ensures
        r.0 == monitor_x + overlay_offset(monitor_width, window_width, 24),
        r.1 == monitor_y + overlay_offset(monitor_height, window_height, 56),
{
    let free_x = monitor_width.saturating_sub(window_width + 24);
    let free_y = monitor_height.saturating_sub(window_height + 56);
    let dx: i32 = if free_x > 2147483647 {
        0
    } else {
        free_x as i32
    };
    let dy: i32 = if free_y > 2147483647 {
        0
    } else {
        free_y as i32
    };
    (monitor_x + dx, monitor_y + dy)
}

} // verus!
