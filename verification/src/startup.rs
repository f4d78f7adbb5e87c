//! The decision taken before the store is opened for writing: start normally,
//! ask the user to recover earlier data, or refuse to write at all.
use vstd::prelude::*;

use crate::domain::{lex_le, lex_le_exec};
use crate::error::{AppError, AppResult, IoKind, SqliteCode, validation, is_validation};
use crate::records::{DataFileSummary, LATEST_SCHEMA_VERSION, recoverable_spec, summary_has_recoverable_content};
use crate::text::{chars_of, owned, u64_to_string, i64_to_string, decimal_seq, signed_decimal};

verus! {

/// How the application may start.
#[derive(Debug, Clone, Copy, PartialEq, Eq, Structural)]
pub enum StartupMode {
    Ready,
    RecoveryRequired,
    Blocked,
}

/// What the startup check found, for the user and for the log.
#[derive(Debug, Clone)]
pub struct StartupStatus {
    pub mode: StartupMode,
    pub target_path: String,
    pub message: String,
    pub current: Option<DataFileSummary>,
    pub recovery_candidates: Vec<DataFileSummary>,
    pub diagnostic: String,
}

/// The startup status together with the data file and the places that were
/// searched for earlier data.
#[derive(Debug, Clone)]
pub struct StartupState {
    pub status: StartupStatus,
    pub target_path: String,
    pub candidate_paths: Vec<String>,
}

/// A place searched for earlier data and what an inspection found there
/// (`None` when the file could not be read as a data file).
#[derive(Debug, Clone)]
pub struct CandidateInspection {
    pub path: String,
    pub summary: Option<DataFileSummary>,
}

// ---------------------------------------------------------------------------
// Paths
// ---------------------------------------------------------------------------
/// Whether two texts name the same path component by component
/// (`<Path as PartialEq>::eq`).
pub uninterp spec fn std_path_eq(a: Seq<char>, b: Seq<char>) -> bool;

/// Compares two paths the way `std::path::Path` does: by their components.
#[verifier::external_body]
pub(crate) fn same_path(a: &str, b: &str) -> (r: bool)
    ensures
        r == std_path_eq(a@, b@),
{
    std::path::Path::new(a) == std::path::Path::new(b)
}

// ---------------------------------------------------------------------------
// Recovery candidates
// ---------------------------------------------------------------------------
/// Whether one inspected place offers earlier data: it is not the data file
/// itself, it could be read, its schema is one this build knows, and it holds
/// something worth recovering.
pub open spec fn eligible(c: CandidateInspection, target: Seq<char>) -> bool {
    &&& !std_path_eq(c.path@, target)
    &&& c.summary matches Some(s) && s.schema_version <= LATEST_SCHEMA_VERSION && recoverable_spec(s)
}

/// The summaries of the eligible places, in the order they were searched.
pub open spec fn eligible_summaries(cs: Seq<CandidateInspection>, target: Seq<char>) -> Seq<DataFileSummary>
    decreases cs.len(),
{
    if cs.len() == 0 {
        Seq::empty()
    } else {
        let rest = eligible_summaries(cs.drop_last(), target);
        if eligible(cs.last(), target) {
            rest.push(cs.last().summary.unwrap())
        } else {
            rest
        }
    }
}

/// The order of the last-update texts: a missing one first, then by text.
pub open spec fn updated_le(a: Option<String>, b: Option<String>) -> bool {
    match a {
        None => true,
        Some(x) => match b {
            None => false,
            Some(y) => lex_le(x@, y@),
        },
    }
}

/// `a` was updated strictly earlier than `b`.
pub open spec fn updated_before(a: DataFileSummary, b: DataFileSummary) -> bool {
    !updated_le(b.updated_at, a.updated_at)
}

/// Puts `x` into a list ordered newest first, after every entry that is at
/// least as new (so that entries with equal times keep their order).
pub open spec fn insert_newest_first(s: Seq<DataFileSummary>, x: DataFileSummary) -> Seq<DataFileSummary>
    decreases s.len(),
{
    if s.len() == 0 {
        seq![x]
    } else if updated_before(s[0], x) {
        seq![x] + s
    } else {
        seq![s[0]] + insert_newest_first(s.drop_first(), x)
    }
}

/// The summaries ordered newest first; entries with equal times keep their
/// order (a stable sort).
pub open spec fn newest_first(s: Seq<DataFileSummary>) -> Seq<DataFileSummary>
    decreases s.len(),
{
    if s.len() == 0 {
        s
    } else {
        insert_newest_first(newest_first(s.drop_last()), s.last())
    }
}

/// The list without an entry whose path repeats the one kept just before it.
pub open spec fn dedup_paths(s: Seq<DataFileSummary>) -> Seq<DataFileSummary>
    decreases s.len(),
{
    if s.len() == 0 {
        s
    } else {
        let kept = dedup_paths(s.drop_last());
        if kept.len() > 0 && kept.last().path@ == s.last().path@ {
            kept
        } else {
            kept.push(s.last())
        }
    }
}

/// The earlier data offered for recovery.
pub open spec fn recovery_candidates_spec(cs: Seq<CandidateInspection>, target: Seq<char>) -> Seq<DataFileSummary> {
    dedup_paths(newest_first(eligible_summaries(cs, target)))
}

fn updated_le_exec(a: &Option<String>, b: &Option<String>) -> (r: bool)
    ensures
        r == updated_le(*a, *b),
{
    match a {
        None => true,
        Some(x) => match b {
            None => false,
            Some(y) => {
                let xc = chars_of(x.as_str());
                let yc = chars_of(y.as_str());
                lex_le_exec(&xc, &yc)
            },
        },
    }
}

proof fn lemma_insert_at(s: Seq<DataFileSummary>, x: DataFileSummary, i: int)
    requires
        0 <= i <= s.len(),
        forall|j: int| 0 <= j < i ==> !updated_before(#[trigger] s[j], x),
        i < s.len() ==> updated_before(s[i], x),
    ensures
        insert_newest_first(s, x) == s.subrange(0, i).push(x) + s.subrange(i, s.len() as int),
    decreases s.len(),
{
    if s.len() == 0 {
        assert(s.subrange(0, 0).push(x) + s.subrange(0, 0) =~= seq![x]);
    } else if i == 0 {
        assert(s.subrange(0, 0).push(x) + s.subrange(0, s.len() as int) =~= seq![x] + s);
    } else {
        let t = s.drop_first();
        assert forall|j: int| 0 <= j < i - 1 implies !updated_before(#[trigger] t[j], x) by {
            assert(t[j] == s[j + 1]);
        }
        if i - 1 < t.len() {
            assert(t[i - 1] == s[i]);
        }
        lemma_insert_at(t, x, i - 1);
        assert(!updated_before(s[0], x));
        assert(seq![s[0]] + (t.subrange(0, i - 1).push(x) + t.subrange(i - 1, t.len() as int))
            =~= s.subrange(0, i).push(x) + s.subrange(i, s.len() as int));
    }
}

fn insert_newest_first_exec(out: &mut Vec<DataFileSummary>, x: DataFileSummary)
    ensures
        final(out)@ == insert_newest_first(old(out)@, x),
{
    let mut i: usize = 0;
    while i < out.len()
        invariant
            i <= out@.len(),
            forall|j: int| 0 <= j < i ==> !updated_before(#[trigger] out@[j], x),
        ensures
            i <= out@.len(),
            forall|j: int| 0 <= j < i ==> !updated_before(#[trigger] out@[j], x),
            i < out@.len() ==> updated_before(out@[i as int], x),
        decreases out@.len() - i,
    {
        if !updated_le_exec(&x.updated_at, &out[i].updated_at) {
            break;
        }
        i = i + 1;
    }
    proof {
        lemma_insert_at(out@, x, i as int);
    }
    out.insert(i, x);
    assert(out@ =~= old(out)@.subrange(0, i as int).push(x) + old(out)@.subrange(i as int, old(out)@.len() as int));
}

/// A copy of a data file summary.
pub fn copy_summary(s: &DataFileSummary) -> (r: DataFileSummary)
    ensures
        r == *s,
{
    DataFileSummary {
        path: s.path.clone(),
        item_count: s.item_count,
        schema_version: s.schema_version,
        updated_at: match &s.updated_at {
            Some(t) => Some(t.clone()),
            None => None,
        },
        has_draft: s.has_draft,
        has_custom_settings: s.has_custom_settings,
    }
}

/// The earlier data that can be offered for recovery: every inspected place
/// other than the data file that could be read, has a schema this build
/// knows and holds something worth recovering; newest first (ties keep
/// their order); an entry whose path repeats the one before it is dropped.
pub fn valid_recovery_candidates(target_path: &str, inspected: &[CandidateInspection]) -> (r: Vec<DataFileSummary>)
    ensures
        r@ == recovery_candidates_spec(inspected@, target_path@),
        newest_first_ordered(r@),
        forall|i: int|
            0 <= i < r@.len() ==> found_in(inspected@, target_path@, #[trigger] r@[i]) && offerable(r@[i]),
        forall|k: int|
            0 <= k < inspected@.len() && eligible(#[trigger] inspected@[k], target_path@) ==> has_path(
                r@,
                inspected@[k].summary.unwrap().path@,
            ),
        forall|i: int| 0 <= i < r@.len() - 1 ==> (#[trigger] r@[i]).path@ != r@[i + 1].path@,
{
    proof {
        lemma_recovery_candidates_are_safe_to_offer(inspected@, target_path@);
    }
    // Sort the eligible summaries as they are found.
    let mut sorted: Vec<DataFileSummary> = Vec::new();
    let mut i: usize = 0;
    while i < inspected.len()
        invariant
            i <= inspected@.len(),
            sorted@ == newest_first(eligible_summaries(inspected@.subrange(0, i as int), target_path@)),
        decreases inspected@.len() - i,
    {
        let c = &inspected[i];
        proof {
            let next = inspected@.subrange(0, i as int + 1);
            assert(next.drop_last() =~= inspected@.subrange(0, i as int));
            assert(next.last() == inspected@[i as int]);
        }
        if !same_path(c.path.as_str(), target_path) {
            match &c.summary {
                Some(summary) => {
                    if summary.schema_version <= LATEST_SCHEMA_VERSION && summary_has_recoverable_content(summary) {
                        let ghost before = eligible_summaries(inspected@.subrange(0, i as int), target_path@);
                        assert(eligible_summaries(inspected@.subrange(0, i as int + 1), target_path@) == before.push(*summary));
                        assert(before.push(*summary).drop_last() =~= before);
                        insert_newest_first_exec(&mut sorted, copy_summary(summary));
                    }
                },
                None => {},
            }
        }
        i = i + 1;
    }
    assert(inspected@.subrange(0, inspected@.len() as int) =~= inspected@);
    // Drop an entry whose path repeats the one kept before it.
    let mut kept: Vec<DataFileSummary> = Vec::new();
    let mut j: usize = 0;
    while j < sorted.len()
        invariant
            j <= sorted@.len(),
            kept@ == dedup_paths(sorted@.subrange(0, j as int)),
        decreases sorted@.len() - j,
    {
        proof {
            let next = sorted@.subrange(0, j as int + 1);
            assert(next.drop_last() =~= sorted@.subrange(0, j as int));
            assert(next.last() == sorted@[j as int]);
        }
        let repeats = kept.len() > 0 && crate::text::str_eq(kept[kept.len() - 1].path.as_str(), sorted[j].path.as_str());
        if !repeats {
            kept.push(copy_summary(&sorted[j]));
        }
        j = j + 1;
    }
    assert(sorted@.subrange(0, sorted@.len() as int) =~= sorted@);
    kept
}

// ---------------------------------------------------------------------------
// Status reports
// ---------------------------------------------------------------------------
/// `true` or `false`, as Rust writes a `bool`.
pub open spec fn bool_text(b: bool) -> Seq<char> {
    if b {
        "true"@
    } else {
        "false"@
    }
}

/// The schema of the current data file, or `unknown`.
pub open spec fn schema_text(current: Option<DataFileSummary>) -> Seq<char> {
    match current {
        Some(s) => signed_decimal(s.schema_version as int),
        None => "unknown"@,
    }
}

/// The diagnostic line written to the log for a startup decision.
pub open spec fn diagnostic_spec(
    issue: Seq<char>,
    target_exists: bool,
    target_bytes: u64,
    current: Option<DataFileSummary>,
    candidates: nat,
) -> Seq<char> {
    "startup_state="@ + issue + "; target_exists="@ + bool_text(target_exists) + "; target_bytes="@
        + decimal_seq(target_bytes as nat) + "; current_schema="@ + schema_text(current) + "; candidates="@
        + decimal_seq(candidates) + "; app_schema="@ + signed_decimal(LATEST_SCHEMA_VERSION as int)
}

/// `r` is the status with these parts.
pub open spec fn status_is(
    r: StartupStatus,
    mode: StartupMode,
    target_path: Seq<char>,
    message: Seq<char>,
    current: Option<DataFileSummary>,
    candidates: Seq<DataFileSummary>,
    issue: Seq<char>,
    target_exists: bool,
    target_bytes: u64,
) -> bool {
    &&& r.mode == mode
    &&& r.target_path@ == target_path
    &&& r.message@ == message
    &&& r.current == current
    &&& r.recovery_candidates@ == candidates
    &&& r.diagnostic@ == diagnostic_spec(issue, target_exists, target_bytes, current, candidates.len())
}

fn bool_string(b: bool) -> (r: &'static str)
    ensures
        r@ == bool_text(b),
{
    if b {
        "true"
    } else {
        "false"
    }
}

fn status(
    mode: StartupMode,
    target_path: &str,
    message: &str,
    current: Option<DataFileSummary>,
    recovery_candidates: Vec<DataFileSummary>,
    issue: &str,
    target_exists: bool,
    target_bytes: u64,
) -> (r: StartupStatus)
    ensures
        status_is(r, mode, target_path@, message@, current, recovery_candidates@, issue@, target_exists, target_bytes),
{
    let current_schema = match &current {
        Some(summary) => i64_to_string(summary.schema_version),
        None => owned("unknown"),
    };
    let mut diagnostic = owned("startup_state=");
    diagnostic.append(issue);
    diagnostic.append("; target_exists=");
    diagnostic.append(bool_string(target_exists));
    diagnostic.append("; target_bytes=");
    diagnostic.append(u64_to_string(target_bytes).as_str());
    diagnostic.append("; current_schema=");
    diagnostic.append(current_schema.as_str());
    diagnostic.append("; candidates=");
    diagnostic.append(u64_to_string(recovery_candidates.len() as u64).as_str());
    diagnostic.append("; app_schema=");
    diagnostic.append(i64_to_string(LATEST_SCHEMA_VERSION).as_str());
    StartupStatus {
        mode,
        target_path: owned(target_path),
        message: owned(message),
        current,
        recovery_candidates,
        diagnostic,
    }
}

fn ready_status(target_path: &str, current: Option<DataFileSummary>, target_exists: bool, target_bytes: u64) -> (r:
    StartupStatus)
    ensures
        status_is(r, StartupMode::Ready, target_path@, ""@, current, Seq::empty(), "ready"@, target_exists, target_bytes),
{
    status(StartupMode::Ready, target_path, "", current, Vec::new(), "ready", target_exists, target_bytes)
}

/// What kind of problem an error reading the data file is, for the log and
/// for the message shown.
pub open spec fn error_kind_spec(error: AppError) -> Seq<char> {
    match error {
        AppError::Io(f) => if f.kind == IoKind::PermissionDenied {
            "permission_denied"@
        } else if f.kind == IoKind::StorageFull || f.os_code == Some(112i32) {
            "disk_full"@
        } else {
            "file_error"@
        },
        AppError::Database(f) => match f.code {
            Some(SqliteCode::ReadOnly) => "database_read_only"@,
            Some(SqliteCode::DiskFull) => "disk_full"@,
            Some(SqliteCode::DatabaseCorrupt) => "database_corrupt"@,
            Some(SqliteCode::CannotOpen) => "database_unavailable"@,
            _ => "database_error"@,
        },
        AppError::Validation(_) => "validation_failed"@,
        AppError::SettingsData(_) => "settings_invalid"@,
        AppError::SystemIntegration(_) => "system_error"@,
        AppError::ItemNotFound => "unexpected_item_error"@,
    }
}

/// Classifies an error met while reading the data file.
pub fn error_kind(error: &AppError) -> (r: &'static str)
    ensures
        r@ == error_kind_spec(*error),
{
    match error {
        AppError::Io(f) => {
            if f.kind == IoKind::PermissionDenied {
                "permission_denied"
            } else if f.kind == IoKind::StorageFull {
                "disk_full"
            } else if f.os_code == Some(112i32) {
                "disk_full"
            } else {
                "file_error"
            }
        },
        AppError::Database(f) => match f.code {
            Some(SqliteCode::ReadOnly) => "database_read_only",
            Some(SqliteCode::DiskFull) => "disk_full",
            Some(SqliteCode::DatabaseCorrupt) => "database_corrupt",
            Some(SqliteCode::CannotOpen) => "database_unavailable",
            _ => "database_error",
        },
        AppError::Validation(_) => "validation_failed",
        AppError::SettingsData(_) => "settings_invalid",
        AppError::SystemIntegration(_) => "system_error",
        AppError::ItemNotFound => "unexpected_item_error",
    }
}

/// The message shown when the data file cannot be used safely.
pub open spec fn blocked_message(issue: Seq<char>) -> Seq<char> {
    if issue == "permission_denied"@ || issue == "database_read_only"@ {
        "原数据仍在，但当前位置暂时不能安全写入。闪记已停止启动，请检查文件权限后重试。"@
    } else if issue == "disk_full"@ {
        "原数据仍在，但可用空间不足，无法安全完成备份或升级。释放空间后可以重试。"@
    } else {
        "原数据仍在，但当前版本暂时无法确认它可以安全读取。闪记已停止写入。"@
    }
}

/// The status for a data file that cannot be used safely: the application
/// starts blocked and says why.
pub fn blocked_status(
    target_path: &str,
    recovery_candidates: Vec<DataFileSummary>,
    current: Option<DataFileSummary>,
    error: &AppError,
    target_exists: bool,
    target_bytes: u64,
) -> (r: StartupStatus)
    ensures
        status_is(
            r,
            StartupMode::Blocked,
            target_path@,
            blocked_message(error_kind_spec(*error)),
            current,
            recovery_candidates@,
            error_kind_spec(*error),
            target_exists,
            target_bytes,
        ),
{
    let issue = error_kind(error);
    let message = if crate::text::str_eq(issue, "permission_denied") || crate::text::str_eq(issue, "database_read_only") {
        "原数据仍在，但当前位置暂时不能安全写入。闪记已停止启动，请检查文件权限后重试。"
    } else if crate::text::str_eq(issue, "disk_full") {
        "原数据仍在，但可用空间不足，无法安全完成备份或升级。释放空间后可以重试。"
    } else {
        "原数据仍在，但当前版本暂时无法确认它可以安全读取。闪记已停止写入。"
    };
    status(StartupMode::Blocked, target_path, message, current, recovery_candidates, issue, target_exists, target_bytes)
}

/// The message when the data file is missing or empty and earlier data exists.
pub const LEGACY_DATA_MESSAGE: &'static str = "当前数据位置没有记录，但找到了以前保存的内容。恢复前不会写入空数据。";

/// The message when the data file comes from a newer version.
pub const NEWER_SCHEMA_MESSAGE: &'static str = "原数据来自更新版本，当前版本没有写入。请升级闪记，或恢复下方兼容的备份。";

/// The message when the data file holds no items and earlier data exists.
pub const EMPTY_TARGET_MESSAGE: &'static str = "当前数据位置没有事项，但找到了以前保存的内容。当前文件会在恢复前保留，两份数据不会自动合并。";

/// The startup decision.
/// - A missing or empty data file starts normally unless earlier data
///   exists, in which case recovery is offered (`legacy_data_found`).
/// - A data file from a newer version blocks every write (`newer_schema`).
/// - A data file without items starts normally unless earlier data exists,
///   in which case recovery is offered (`empty_target_with_legacy_data`).
/// - A data file with items starts normally.
/// - A data file that cannot be read blocks writing.
/// `inspection` is what reading the data file gave; it is consulted only
/// when the data file exists and is not empty.
pub open spec fn assessment(
    r: StartupStatus,
    target_path: Seq<char>,
    target_exists: bool,
    target_bytes: u64,
    inspection: Result<DataFileSummary, AppError>,
    candidates: Seq<DataFileSummary>,
) -> bool {
    if !target_exists || target_bytes == 0 {
        if candidates.len() == 0 {
            status_is(r, StartupMode::Ready, target_path, ""@, None, Seq::empty(), "ready"@, target_exists, target_bytes)
        } else {
            status_is(
                r,
                StartupMode::RecoveryRequired,
                target_path,
                LEGACY_DATA_MESSAGE@,
                None,
                candidates,
                "legacy_data_found"@,
                target_exists,
                target_bytes,
            )
        }
    } else {
        match inspection {
            Ok(current) => if current.schema_version > LATEST_SCHEMA_VERSION {
                status_is(
                    r,
                    StartupMode::Blocked,
                    target_path,
                    NEWER_SCHEMA_MESSAGE@,
                    Some(current),
                    candidates,
                    "newer_schema"@,
                    true,
                    target_bytes,
                )
            } else if current.item_count == 0 && candidates.len() > 0 {
                status_is(
                    r,
                    StartupMode::RecoveryRequired,
                    target_path,
                    EMPTY_TARGET_MESSAGE@,
                    Some(current),
                    candidates,
                    "empty_target_with_legacy_data"@,
                    true,
                    target_bytes,
                )
            } else {
                status_is(r, StartupMode::Ready, target_path, ""@, Some(current), Seq::empty(), "ready"@, true, target_bytes)
            },
            Err(e) => status_is(
                r,
                StartupMode::Blocked,
                target_path,
                blocked_message(error_kind_spec(e)),
                None,
                candidates,
                error_kind_spec(e),
                true,
                target_bytes,
            ),
        }
    }
}

/// Decides how the application starts from what was found at the data file
/// and at the places searched for earlier data (see `assessment`).
pub fn assess_database_startup(
    target_path: &str,
    target_exists: bool,
    target_bytes: u64,
    inspection: Result<DataFileSummary, AppError>,
    inspected: &[CandidateInspection],
) -> (r: StartupStatus)
    ensures
        assessment(
            r,
            target_path@,
            target_exists,
            target_bytes,
            inspection,
            recovery_candidates_spec(inspected@, target_path@),
        ),
{
    if !target_exists || target_bytes == 0 {
        let recovery_candidates = valid_recovery_candidates(target_path, inspected);
        if recovery_candidates.len() == 0 {
            return ready_status(target_path, None, target_exists, target_bytes);
        }
        return status(
            StartupMode::RecoveryRequired,
            target_path,
            LEGACY_DATA_MESSAGE,
            None,
            recovery_candidates,
            "legacy_data_found",
            target_exists,
            target_bytes,
        );
    }
    match inspection {
        Ok(current) => {
            if current.schema_version > LATEST_SCHEMA_VERSION {
                let recovery_candidates = valid_recovery_candidates(target_path, inspected);
                status(
                    StartupMode::Blocked,
                    target_path,
                    NEWER_SCHEMA_MESSAGE,
                    Some(current),
                    recovery_candidates,
                    "newer_schema",
                    true,
                    target_bytes,
                )
            } else if current.item_count == 0 {
                let recovery_candidates = valid_recovery_candidates(target_path, inspected);
                if recovery_candidates.len() == 0 {
                    ready_status(target_path, Some(current), true, target_bytes)
                } else {
                    status(
                        StartupMode::RecoveryRequired,
                        target_path,
                        EMPTY_TARGET_MESSAGE,
                        Some(current),
                        recovery_candidates,
                        "empty_target_with_legacy_data",
                        true,
                        target_bytes,
                    )
                }
            } else {
                ready_status(target_path, Some(current), true, target_bytes)
            }
        },
        Err(error) => {
            let recovery_candidates = valid_recovery_candidates(target_path, inspected);
            blocked_status(target_path, recovery_candidates, None, &error, true, target_bytes)
        },
    }
}

impl StartupState {
    /// The state of an application that starts normally with `target_path`.
    pub fn ready(target_path: String) -> (r: Self)
        ensures
            r.status.mode == StartupMode::Ready,
            r.status.target_path@ == target_path@,
            r.status.message@ == ""@,
            r.status.current is None,
            r.status.recovery_candidates@.len() == 0,
            r.status.diagnostic@ == "startup_state=ready; app_schema="@ + signed_decimal(LATEST_SCHEMA_VERSION as int),
            r.target_path == target_path,
            r.candidate_paths@.len() == 0,
    {
        let mut diagnostic = owned("startup_state=ready; app_schema=");
        diagnostic.append(i64_to_string(LATEST_SCHEMA_VERSION).as_str());
        StartupState {
            status: StartupStatus {
                mode: StartupMode::Ready,
                target_path: target_path.clone(),
                message: owned(""),
                current: None,
                recovery_candidates: Vec::new(),
                diagnostic,
            },
            target_path,
            candidate_paths: Vec::new(),
        }
    }
}

/// Bundles a startup status with the paths it was decided for.
pub fn startup_state(status: StartupStatus, target_path: String, candidate_paths: Vec<String>) -> (r: StartupState)
    ensures
        r.status == status,
        r.target_path == target_path,
        r.candidate_paths == candidate_paths,
{
    StartupState { target_path, status, candidate_paths }
}

/// A path may be restored from only when it is one of the places that were
/// searched and the startup check offered it.
pub open spec fn recovery_allowed(state: StartupState, requested: Seq<char>) -> bool {
    &&& exists|i: int| 0 <= i < state.candidate_paths@.len() && std_path_eq(#[trigger] state.candidate_paths@[i]@, requested)
    &&& exists|j: int|
        0 <= j < state.status.recovery_candidates@.len() && std_path_eq(
            #[trigger] state.status.recovery_candidates@[j].path@,
            requested,
        )
}

/// The message when a restore is asked for from a place that was not offered.
pub const RECOVERY_REFUSED_MESSAGE: &'static str = "这份数据不在闪记已校验的恢复位置中，请重新检查后选择";

/// Refuses a restore from any place the startup check did not offer.
pub fn ensure_recovery_candidate_allowed(state: &StartupState, requested: &str) -> (r: AppResult<()>)
    ensures
        recovery_allowed(*state, requested@) ==> r is Ok,
        !recovery_allowed(*state, requested@) ==> (r matches Err(e) && is_validation(e, RECOVERY_REFUSED_MESSAGE@)),
{
    let mut searched = false;
    let mut i: usize = 0;
    while i < state.candidate_paths.len()
        invariant
            i <= state.candidate_paths@.len(),
            searched == exists|k: int| 0 <= k < i && std_path_eq(#[trigger] state.candidate_paths@[k]@, requested@),
        decreases state.candidate_paths@.len() - i,
    {
        if same_path(state.candidate_paths[i].as_str(), requested) {
            searched = true;
        }
        i = i + 1;
    }
    let mut offered = false;
    let mut j: usize = 0;
    while j < state.status.recovery_candidates.len()
        invariant
            j <= state.status.recovery_candidates@.len(),
            offered == exists|k: int|
                0 <= k < j && std_path_eq(#[trigger] state.status.recovery_candidates@[k].path@, requested@),
        decreases state.status.recovery_candidates@.len() - j,
    {
        if same_path(state.status.recovery_candidates[j].path.as_str(), requested) {
            offered = true;
        }
        j = j + 1;
    }
    if searched && offered {
        Ok(())
    } else {
        Err(validation(RECOVERY_REFUSED_MESSAGE))
    }
}

// ---------------------------------------------------------------------------
// What is offered for recovery
// ---------------------------------------------------------------------------
/// A summary worth offering: a schema this build knows, and content.
pub open spec fn offerable(s: DataFileSummary) -> bool {
    s.schema_version <= LATEST_SCHEMA_VERSION && recoverable_spec(s)
}

/// `s` is what an eligible place in `cs` was found to hold.
pub open spec fn found_in(cs: Seq<CandidateInspection>, target: Seq<char>, s: DataFileSummary) -> bool {
    exists|k: int| 0 <= k < cs.len() && eligible(#[trigger] cs[k], target) && cs[k].summary == Some(s)
}

/// Each entry is at least as new as every later one.
pub open spec fn newest_first_ordered(s: Seq<DataFileSummary>) -> bool {
    forall|i: int, j: int| 0 <= i < j < s.len() ==> !updated_before(#[trigger] s[i], #[trigger] s[j])
}

proof fn lemma_updated_total(a: DataFileSummary, b: DataFileSummary)
    ensures
        !updated_before(a, b) || !updated_before(b, a),
{
    if let (Some(x), Some(y)) = (a.updated_at, b.updated_at) {
        crate::domain::lemma_lex_total(x@, y@);
    }
}

proof fn lemma_updated_trans(a: DataFileSummary, b: DataFileSummary, c: DataFileSummary)
    requires
        !updated_before(a, b),
        !updated_before(b, c),
    ensures
        !updated_before(a, c),
{
    if let (Some(x), Some(y), Some(z)) = (a.updated_at, b.updated_at, c.updated_at) {
        crate::domain::lemma_lex_trans(z@, y@, x@);
    }
}

proof fn lemma_eligible_found(cs: Seq<CandidateInspection>, target: Seq<char>)
    ensures
        forall|i: int|
            0 <= i < eligible_summaries(cs, target).len() ==> found_in(cs, target, #[trigger] eligible_summaries(cs, target)[i]),
    decreases cs.len(),
{
    if cs.len() > 0 {
        let init = cs.drop_last();
        lemma_eligible_found(init, target);
        let rest = eligible_summaries(init, target);
        assert forall|i: int| 0 <= i < eligible_summaries(cs, target).len() implies found_in(
            cs,
            target,
            #[trigger] eligible_summaries(cs, target)[i],
        ) by {
            if i < rest.len() {
                let y = rest[i];
                assert(found_in(init, target, y));
                let k = choose|k: int| 0 <= k < init.len() && eligible(#[trigger] init[k], target) && init[k].summary == Some(y);
                assert(cs[k] == init[k]);
            } else {
                assert(cs[cs.len() - 1] == cs.last());
            }
        }
    }
}

proof fn lemma_insert_keeps(s: Seq<DataFileSummary>, x: DataFileSummary, p: spec_fn(DataFileSummary) -> bool)
    requires
        forall|i: int| 0 <= i < s.len() ==> p(#[trigger] s[i]),
        p(x),
    ensures
        forall|i: int| 0 <= i < insert_newest_first(s, x).len() ==> p(#[trigger] insert_newest_first(s, x)[i]),
        insert_newest_first(s, x).len() == s.len() + 1,
    decreases s.len(),
{
    if s.len() > 0 && !updated_before(s[0], x) {
        let t = s.drop_first();
        lemma_insert_keeps(t, x, p);
        let r = insert_newest_first(s, x);
        assert forall|i: int| 0 <= i < r.len() implies p(#[trigger] r[i]) by {
            if i > 0 {
                assert(r[i] == insert_newest_first(t, x)[i - 1]);
            }
        }
    } else if s.len() > 0 {
        let r = insert_newest_first(s, x);
        assert forall|i: int| 0 <= i < r.len() implies p(#[trigger] r[i]) by {
            if i > 0 {
                assert(r[i] == s[i - 1]);
            }
        }
    }
}

proof fn lemma_insert_ordered(s: Seq<DataFileSummary>, x: DataFileSummary)
    requires
        newest_first_ordered(s),
    ensures
        newest_first_ordered(insert_newest_first(s, x)),
    decreases s.len(),
{
    let r = insert_newest_first(s, x);
    if s.len() == 0 {
    } else if updated_before(s[0], x) {
        assert forall|i: int, j: int| 0 <= i < j < r.len() implies !updated_before(#[trigger] r[i], #[trigger] r[j]) by {
            if i == 0 {
                lemma_updated_total(s[0], x);
                if j > 1 {
                    lemma_updated_trans(x, s[0], s[j - 1]);
                }
            } else {
                assert(r[i] == s[i - 1] && r[j] == s[j - 1]);
            }
        }
    } else {
        let t = s.drop_first();
        assert forall|i: int, j: int| 0 <= i < j < t.len() implies !updated_before(#[trigger] t[i], #[trigger] t[j]) by {
            assert(t[i] == s[i + 1] && t[j] == s[j + 1]);
        }
        lemma_insert_ordered(t, x);
        let rt = insert_newest_first(t, x);
        let p = |y: DataFileSummary| !updated_before(s[0], y);
        assert forall|i: int| 0 <= i < t.len() implies p(#[trigger] t[i]) by {
            assert(t[i] == s[i + 1]);
        }
        lemma_insert_keeps(t, x, p);
        assert forall|i: int, j: int| 0 <= i < j < r.len() implies !updated_before(#[trigger] r[i], #[trigger] r[j]) by {
            if i == 0 {
                assert(r[j] == rt[j - 1]);
                assert(p(rt[j - 1]));
            } else {
                assert(r[i] == rt[i - 1] && r[j] == rt[j - 1]);
            }
        }
    }
}

proof fn lemma_newest_first_keeps(s: Seq<DataFileSummary>, p: spec_fn(DataFileSummary) -> bool)
    requires
        forall|i: int| 0 <= i < s.len() ==> p(#[trigger] s[i]),
    ensures
        forall|i: int| 0 <= i < newest_first(s).len() ==> p(#[trigger] newest_first(s)[i]),
        newest_first_ordered(newest_first(s)),
    decreases s.len(),
{
    if s.len() > 0 {
        let init = s.drop_last();
        assert forall|i: int| 0 <= i < init.len() implies p(#[trigger] init[i]) by {
            assert(init[i] == s[i]);
        }
        lemma_newest_first_keeps(init, p);
        lemma_insert_keeps(newest_first(init), s.last(), p);
        lemma_insert_ordered(newest_first(init), s.last());
    }
}

proof fn lemma_dedup_keeps(s: Seq<DataFileSummary>, p: spec_fn(DataFileSummary) -> bool)
    requires
        forall|i: int| 0 <= i < s.len() ==> p(#[trigger] s[i]),
        newest_first_ordered(s),
    ensures
        forall|i: int| 0 <= i < dedup_paths(s).len() ==> p(#[trigger] dedup_paths(s)[i]),
        newest_first_ordered(dedup_paths(s)),
        forall|i: int| 0 <= i < dedup_paths(s).len() - 1 ==> (#[trigger] dedup_paths(s)[i]).path@ != dedup_paths(s)[i + 1].path@,
        forall|i: int| 0 <= i < dedup_paths(s).len() ==> !updated_before(s[0], #[trigger] dedup_paths(s)[i]),
    decreases s.len(),
{
    if s.len() > 0 {
        let init = s.drop_last();
        assert forall|i: int| 0 <= i < init.len() implies p(#[trigger] init[i]) by {
            assert(init[i] == s[i]);
        }
        assert forall|i: int, j: int| 0 <= i < j < init.len() implies !updated_before(#[trigger] init[i], #[trigger] init[j]) by {
            assert(init[i] == s[i] && init[j] == s[j]);
        }
        lemma_dedup_keeps(init, p);
        let kept = dedup_paths(init);
        let r = dedup_paths(s);
        if init.len() > 0 {
            assert(init[0] == s[0]);
        }
        if kept.len() == 0 || kept.last().path@ != s.last().path@ {
            assert(r == kept.push(s.last()));
            assert forall|i: int| 0 <= i < r.len() implies !updated_before(s[0], #[trigger] r[i]) by {
                if i < kept.len() {
                    assert(r[i] == kept[i]);
                } else {
                    lemma_updated_total(s[0], s[0]);
                    if s.len() > 1 {
                        assert(!updated_before(s[0], s[s.len() - 1]));
                    } else {
                        if let Some(x) = s[0].updated_at {
                            crate::domain::lemma_lex_total(x@, x@);
                        }
                    }
                }
            }
            assert forall|i: int, j: int| 0 <= i < j < r.len() implies !updated_before(#[trigger] r[i], #[trigger] r[j]) by {
                if j < kept.len() {
                    assert(r[i] == kept[i] && r[j] == kept[j]);
                } else {
                    assert(r[i] == kept[i]);
                    assert(r[j] == s.last());
                    // Each kept entry is an entry of `s` before its last one.
                    lemma_dedup_from(init, i);
                    let k = choose|k: int| 0 <= k < init.len() && init[k] == kept[i];
                    assert(s[k] == init[k]);
                    assert(!updated_before(s[k], s[s.len() - 1]));
                }
            }
            assert forall|i: int| 0 <= i < r.len() implies p(#[trigger] r[i]) by {
                if i < kept.len() {
                    assert(r[i] == kept[i]);
                } else {
                    assert(s[s.len() - 1] == s.last());
                }
            }
            assert forall|i: int| 0 <= i < r.len() - 1 implies (#[trigger] r[i]).path@ != r[i + 1].path@ by {
                if i + 1 < kept.len() {
                    assert(r[i] == kept[i] && r[i + 1] == kept[i + 1]);
                } else {
                    assert(r[i] == kept.last());
                }
            }
        }
    }
}

proof fn lemma_dedup_from(s: Seq<DataFileSummary>, i: int)
    requires
        0 <= i < dedup_paths(s).len(),
    ensures
        exists|k: int| 0 <= k < s.len() && s[k] == dedup_paths(s)[i],
    decreases s.len(),
{
    if s.len() > 0 {
        let init = s.drop_last();
        let kept = dedup_paths(init);
        if i < kept.len() {
            lemma_dedup_from(init, i);
            let k = choose|k: int| 0 <= k < init.len() && init[k] == kept[i];
            assert(s[k] == init[k]);
            assert(dedup_paths(s)[i] == kept[i]);
        } else {
            assert(dedup_paths(s)[i] == s.last());
            assert(s[s.len() - 1] == s.last());
        }
    }
}

/// Some entry of the list has this path.
pub open spec fn has_path(s: Seq<DataFileSummary>, path: Seq<char>) -> bool {
    exists|j: int| 0 <= j < s.len() && (#[trigger] s[j]).path@ == path
}

proof fn lemma_insert_contains(s: Seq<DataFileSummary>, x: DataFileSummary)
    ensures
        insert_newest_first(s, x).contains(x),
        forall|e: DataFileSummary| s.contains(e) ==> #[trigger] insert_newest_first(s, x).contains(e),
    decreases s.len(),
{
    let r = insert_newest_first(s, x);
    if s.len() == 0 {
        assert(r[0] == x);
    } else if updated_before(s[0], x) {
        assert(r =~= seq![x] + s);
        assert(r[0] == x);
        assert forall|e: DataFileSummary| s.contains(e) implies #[trigger] r.contains(e) by {
            let k = choose|k: int| 0 <= k < s.len() && s[k] == e;
            assert(r[k + 1] == e);
        }
    } else {
        let t = s.drop_first();
        lemma_insert_contains(t, x);
        let rt = insert_newest_first(t, x);
        assert(r =~= seq![s[0]] + rt);
        let k0 = choose|k: int| 0 <= k < rt.len() && rt[k] == x;
        assert(r[k0 + 1] == x);
        assert forall|e: DataFileSummary| s.contains(e) implies #[trigger] r.contains(e) by {
            let k = choose|k: int| 0 <= k < s.len() && s[k] == e;
            if k == 0 {
                assert(r[0] == e);
            } else {
                assert(t[k - 1] == e);
                assert(t.contains(e));
                assert(insert_newest_first(t, x).contains(e));
                let m = choose|m: int| 0 <= m < rt.len() && rt[m] == e;
                assert(r[m + 1] == e);
            }
        }
    }
}

proof fn lemma_newest_first_contains(s: Seq<DataFileSummary>)
    ensures
        forall|e: DataFileSummary| s.contains(e) ==> #[trigger] newest_first(s).contains(e),
    decreases s.len(),
{
    if s.len() > 0 {
        let p = s.drop_last();
        lemma_newest_first_contains(p);
        lemma_insert_contains(newest_first(p), s.last());
        assert forall|e: DataFileSummary| s.contains(e) implies #[trigger] newest_first(s).contains(e) by {
            let k = choose|k: int| 0 <= k < s.len() && s[k] == e;
            if k < s.len() - 1 {
                assert(p[k] == e);
                assert(p.contains(e));
            }
        }
    }
}

proof fn lemma_dedup_has_path(s: Seq<DataFileSummary>)
    ensures
        forall|k: int| 0 <= k < s.len() ==> has_path(dedup_paths(s), (#[trigger] s[k]).path@),
    decreases s.len(),
{
    if s.len() > 0 {
        let p = s.drop_last();
        let kept = dedup_paths(p);
        let d = dedup_paths(s);
        lemma_dedup_has_path(p);
        assert forall|k: int| 0 <= k < s.len() implies has_path(d, (#[trigger] s[k]).path@) by {
            if k < s.len() - 1 {
                assert(p[k] == s[k]);
                assert(has_path(kept, p[k].path@));
                let j = choose|j: int| 0 <= j < kept.len() && (#[trigger] kept[j]).path@ == p[k].path@;
                assert(d[j] == kept[j]);
            } else if kept.len() > 0 && kept.last().path@ == s.last().path@ {
                assert(d[kept.len() - 1] == kept.last());
            } else {
                assert(d[kept.len() as int] == s.last());
            }
        }
    }
}

proof fn lemma_eligible_contains(cs: Seq<CandidateInspection>, target: Seq<char>)
    ensures
        forall|i: int|
            0 <= i < cs.len() && eligible(#[trigger] cs[i], target) ==> eligible_summaries(cs, target).contains(
                cs[i].summary.unwrap(),
            ),
    decreases cs.len(),
{
    if cs.len() > 0 {
        let p = cs.drop_last();
        let rest = eligible_summaries(p, target);
        let r = eligible_summaries(cs, target);
        lemma_eligible_contains(p, target);
        assert forall|i: int| 0 <= i < cs.len() && eligible(#[trigger] cs[i], target) implies r.contains(
            cs[i].summary.unwrap(),
        ) by {
            if i < cs.len() - 1 {
                assert(p[i] == cs[i]);
                assert(rest.contains(cs[i].summary.unwrap()));
                let k = choose|k: int| 0 <= k < rest.len() && rest[k] == cs[i].summary.unwrap();
                assert(r[k] == rest[k]);
            } else {
                assert(r[r.len() - 1] == cs.last().summary.unwrap());
            }
        }
    }
}

/// What is offered for recovery: every entry comes from one of the searched
/// places other than the data file, has a schema this build can read and
/// holds something worth recovering; the entries run newest first; no entry
/// repeats the path of the one before it; and the path of every such place
/// is offered.
pub proof fn lemma_recovery_candidates_are_safe_to_offer(cs: Seq<CandidateInspection>, target: Seq<char>)
    ensures
        forall|i: int|
            0 <= i < cs.len() && eligible(#[trigger] cs[i], target) ==> has_path(
                recovery_candidates_spec(cs, target),
                cs[i].summary.unwrap().path@,
            ),
        forall|i: int|
            0 <= i < recovery_candidates_spec(cs, target).len() ==> {
                let s = #[trigger] recovery_candidates_spec(cs, target)[i];
                found_in(cs, target, s) && offerable(s)
            },
        newest_first_ordered(recovery_candidates_spec(cs, target)),
        forall|i: int|
            0 <= i < recovery_candidates_spec(cs, target).len() - 1 ==> (#[trigger] recovery_candidates_spec(
                cs,
                target,
            )[i]).path@ != recovery_candidates_spec(cs, target)[i + 1].path@,
{
    let e = eligible_summaries(cs, target);
    lemma_eligible_found(cs, target);
    let p = |s: DataFileSummary| found_in(cs, target, s) && offerable(s);
    assert forall|i: int| 0 <= i < e.len() implies p(#[trigger] e[i]) by {
        assert(found_in(cs, target, e[i]));
        let k = choose|k: int| 0 <= k < cs.len() && eligible(#[trigger] cs[k], target) && cs[k].summary == Some(e[i]);
    }
    lemma_newest_first_keeps(e, p);
    lemma_dedup_keeps(newest_first(e), p);
    lemma_eligible_contains(cs, target);
    lemma_newest_first_contains(e);
    lemma_dedup_has_path(newest_first(e));
    let nf = newest_first(e);
    assert forall|i: int| 0 <= i < cs.len() && eligible(#[trigger] cs[i], target) implies has_path(
        recovery_candidates_spec(cs, target),
        cs[i].summary.unwrap().path@,
    ) by {
        let x = cs[i].summary.unwrap();
        assert(e.contains(x));
        assert(nf.contains(x));
        let k = choose|k: int| 0 <= k < nf.len() && nf[k] == x;
        assert(has_path(dedup_paths(nf), nf[k].path@));
    }
}

// ---------------------------------------------------------------------------
// Restoring from another data file
// ---------------------------------------------------------------------------
/// The message when the chosen file is the current one.
pub const RESTORE_CURRENT_MESSAGE: &'static str = "当前数据无需恢复";

/// The message when the chosen file holds no items.
pub const RESTORE_EMPTY_MESSAGE: &'static str = "所选数据中没有可恢复的事项";

/// The message when the chosen file comes from a newer version.
pub const RESTORE_NEWER_MESSAGE: &'static str = "这份数据来自更高版本的闪记，请先升级应用后再恢复";

/// Checks a file chosen to restore from before it is staged: it must not
/// be the current file, must read (`inspection` is what reading it gave),
/// must hold items, and must not come from a newer version.
pub fn check_restore_candidate(
    current_path: &str,
    candidate_path: &str,
    inspection: Result<DataFileSummary, AppError>,
) -> (r: AppResult<DataFileSummary>)
    ensures
        std_path_eq(candidate_path@, current_path@) ==> (r matches Err(e) && is_validation(
            e,
            RESTORE_CURRENT_MESSAGE@,
        )),
        !std_path_eq(candidate_path@, current_path@) ==> match inspection {
            Err(e) => r == Err::<DataFileSummary, AppError>(e),
            Ok(s) => if s.item_count == 0 {
                r matches Err(e) && is_validation(e, RESTORE_EMPTY_MESSAGE@)
            } else if s.schema_version > LATEST_SCHEMA_VERSION {
                r matches Err(e) && is_validation(e, RESTORE_NEWER_MESSAGE@)
            } else {
                r == Ok::<DataFileSummary, AppError>(s)
            },
        },
{
    if same_path(candidate_path, current_path) {
        return Err(validation(RESTORE_CURRENT_MESSAGE));
    }
    let summary = inspection?;
    if summary.item_count == 0 {
        return Err(validation(RESTORE_EMPTY_MESSAGE));
    }
    if summary.schema_version > LATEST_SCHEMA_VERSION {
        return Err(validation(RESTORE_NEWER_MESSAGE));
    }
    Ok(summary)
}

} // verus!
