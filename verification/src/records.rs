//! Records that the store hands to the reminder, mail and startup logic.
use vstd::prelude::*;

verus! {

/// The schema version that this build of the store writes.
pub const LATEST_SCHEMA_VERSION: i64 = 7;

/// One reminder that has come due and is to be shown or mailed.
#[derive(Debug, Clone)]
pub struct DueNotification {
    pub event_id: String,
    pub item_id: String,
    pub title: String,
    pub due_local_date: String,
    pub due_local_time: String,
    pub completion_policy: String,
    pub event_kind: Option<String>,
    pub reminder_plan: String,
    pub tag_ids: Vec<String>,
}

/// Events that still wait for an event kind to be chosen.
#[derive(Debug, Clone)]
pub struct ClassificationNotification {
    pub event_ids: Vec<String>,
    pub item_id: Option<String>,
    pub count: usize,
}

/// How one attempt to show a notification ended.
#[derive(Debug, Clone)]
pub struct NotificationDelivery {
    pub result: String,
    pub error_code: Option<String>,
    pub attempted_at: String,
}

/// A claimed e-mail delivery, where it goes and the reminder it carries.
#[derive(Debug, Clone)]
pub struct EmailDeliveryJob {
    pub delivery_id: String,
    pub recipient: String,
    pub notification: DueNotification,
}

/// A fresh random identifier (`uuid::Uuid::new_v4`, hyphenated); only its
/// length, 36 characters, is stated.
#[verifier::external_body]
pub(crate) fn new_id() -> (r: String)
    ensures
        r@.len() == 36,
{
    uuid::Uuid::new_v4().to_string()
}

/// What one pass of the due-reminder processing produced.
#[derive(Debug)]
pub struct ProcessResult {
    pub notifications: Vec<DueNotification>,
    pub classification_notifications: Vec<ClassificationNotification>,
    pub changed: bool,
    pub notifications_enabled: bool,
}

impl ProcessResult {
    /// An empty result: nothing due, nothing changed.
    pub fn empty() -> (r: Self)
        ensures
            r.notifications@.len() == 0,
            r.classification_notifications@.len() == 0,
            !r.changed,
            !r.notifications_enabled,
    {
        ProcessResult {
            notifications: Vec::new(),
            classification_notifications: Vec::new(),
            changed: false,
            notifications_enabled: false,
        }
    }
}

/// What an inspection of a data file found.
#[derive(Debug, Clone)]
pub struct DataFileSummary {
    pub path: String,
    pub item_count: u64,
    pub schema_version: i64,
    pub updated_at: Option<String>,
    pub has_draft: bool,
    pub has_custom_settings: bool,
}

/// The current data file, its latest backup and the files it can be restored from.
#[derive(Debug, Clone)]
pub struct DataStatus {
    pub current: DataFileSummary,
    pub latest_backup: Option<DataFileSummary>,
    pub recovery_candidates: Vec<DataFileSummary>,
}

/// Whether a data file holds anything worth recovering.
pub open spec fn recoverable_spec(s: DataFileSummary) -> bool {
    s.item_count > 0 || s.has_draft || s.has_custom_settings
}

/// Whether a data file holds anything worth recovering: items, an unsaved
/// draft, or settings that differ from the defaults.
pub fn summary_has_recoverable_content(summary: &DataFileSummary) -> (r: bool)
    ensures
        r == recoverable_spec(*summary),
{
    summary.item_count > 0 || summary.has_draft || summary.has_custom_settings
}

/// The integer a flag is stored as.
pub fn bool_to_int(value: bool) -> (r: i64)
    ensures
        r == (if value { 1i64 } else { 0i64 }),
{
    if value {
        1
    } else {
        0
    }
}

} // verus!
