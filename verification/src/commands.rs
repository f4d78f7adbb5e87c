//! What the application answers its window: the status records it shows,
//! the checks a command makes before it acts, and the texts it replies with.
use vstd::prelude::*;

use crate::clock::{format_rfc3339, instant_ok};
use crate::domain::{CreateItemInput, EventConfigurationInput, Item, Settings};
use crate::error::{AppError, AppResult};
use crate::notify::NotificationStatus;
use crate::records::{DueNotification, NotificationDelivery};
use crate::startup::{ensure_recovery_candidate_allowed, same_path, std_path_eq, StartupMode, StartupState};
use crate::text::{concat, owned, str_eq};

verus! {

/// The version of the first-run guide that this build shows.
pub const CURRENT_ONBOARDING_VERSION: u32 = 3;

/// Whether the application starts with the system, as the settings page
/// shows it.
#[derive(Debug, Clone)]
pub struct AutostartStatus {
    pub enabled: bool,
    pub available: bool,
    pub portable: bool,
    pub message: String,
}

/// Whether the first-run guide still has to be shown.
#[derive(Debug, Clone)]
pub struct OnboardingStatus {
    pub required: bool,
    pub completed_version: u32,
    pub current_version: u32,
}

/// The mail settings' state: password, verification and the last attempt.
#[derive(Debug, Clone)]
pub struct SmtpStatus {
    pub password_configured: bool,
    pub verified_at: Option<String>,
    pub last_result: Option<String>,
    pub last_error_code: Option<String>,
    pub last_attempt_at: Option<String>,
}

/// What the "about" page shows.
#[derive(Debug, Clone)]
pub struct AppInfo {
    pub name: String,
    pub version: String,
    pub copyright: String,
    pub portable: bool,
    pub update_install_mode: String,
}

/// Where a report was written and how many items it holds.
#[derive(Debug, Clone)]
pub struct ExportResult {
    pub path: String,
    pub item_count: usize,
}

// ---------------------------------------------------------------------------
// Status records
// ---------------------------------------------------------------------------
/// The guide is due when the completed version is older than this build's.
pub fn onboarding_status(completed_version: u32) -> (r: OnboardingStatus)
    ensures
        r.required == (completed_version < CURRENT_ONBOARDING_VERSION),
        r.completed_version == completed_version,
        r.current_version == CURRENT_ONBOARDING_VERSION,
{
    OnboardingStatus {
        required: completed_version < CURRENT_ONBOARDING_VERSION,
        completed_version,
        current_version: CURRENT_ONBOARDING_VERSION,
    }
}

/// The status right after the guide was completed.
pub fn completed_onboarding() -> (r: OnboardingStatus)
    ensures
        !r.required,
        r.completed_version == CURRENT_ONBOARDING_VERSION,
        r.current_version == CURRENT_ONBOARDING_VERSION,
{
    OnboardingStatus {
        required: false,
        completed_version: CURRENT_ONBOARDING_VERSION,
        current_version: CURRENT_ONBOARDING_VERSION,
    }
}

/// The portable build's autostart note.
pub const AUTOSTART_PORTABLE_NOTE: &'static str = "便携版启动项指向当前程序路径；移动或删除目录后将失效。";

/// The autostart note when it is on.
pub const AUTOSTART_ON_NOTE: &'static str = "闪记将在登录后以后台模式启动。";

/// The autostart note when it is off.
pub const AUTOSTART_OFF_NOTE: &'static str = "开机启动当前未启用。";

/// The autostart status from what the system reported: on a successful
/// read, that state with a note (the portable note first); when the system
/// cannot be read, the stored setting, marked unavailable, with the error.
pub fn autostart_status(read: Result<bool, String>, portable: bool, stored_enabled: bool) -> (r:
    AutostartStatus)
    ensures
        r.portable == portable,
        match read {
            Ok(enabled) => r.enabled == enabled && r.available && r.message@ == (if portable {
                AUTOSTART_PORTABLE_NOTE@
            } else if enabled {
                AUTOSTART_ON_NOTE@
            } else {
                AUTOSTART_OFF_NOTE@
            }),
            Err(message) => r.enabled == stored_enabled && !r.available && r.message == message,
        },
{
    match read {
        Ok(enabled) => {
            let note = if portable {
                AUTOSTART_PORTABLE_NOTE
            } else if enabled {
                AUTOSTART_ON_NOTE
            } else {
                AUTOSTART_OFF_NOTE
            };
            AutostartStatus { enabled, available: true, portable, message: owned(note) }
        },
        Err(message) => AutostartStatus {
            enabled: stored_enabled,
            available: false,
            portable,
            message,
        },
    }
}

/// The complaint when the system's autostart state cannot be read.
pub fn autostart_read_error(detail: &str) -> (r: String)
    ensures
        r@ == "无法读取系统开机启动状态："@ + detail@,
{
    concat("无法读取系统开机启动状态：", detail)
}

/// The complaint when autostart cannot be switched on (or off).
pub fn autostart_switch_error(enabled: bool, detail: &str) -> (r: String)
    ensures
        r@ == (if enabled {
            "无法启用开机启动："@
        } else {
            "无法关闭开机启动："@
        }) + detail@ + "。原设置保持不变。"@,
{
    let head = if enabled {
        "无法启用开机启动："
    } else {
        "无法关闭开机启动："
    };
    let a = concat(head, detail);
    let r = concat(a.as_str(), "。原设置保持不变。");
    r
}

/// The complaint when the system did not take the autostart change.
pub const AUTOSTART_NOT_ACCEPTED: &'static str = "系统没有接受开机启动变更，原设置保持不变。";

/// After autostart was switched: the state read back (or the complaint
/// about reading it) must be the state asked for.
pub fn autostart_confirmation(enabled: bool, actual: Result<bool, String>) -> (r: Result<(), String>)
    ensures
        match actual {
            Err(message) => r == Err::<(), String>(message),
            Ok(state) => if state == enabled {
                r is Ok
            } else {
                r matches Err(m) && m@ == AUTOSTART_NOT_ACCEPTED@
            },
        },
{
    match actual {
        Err(message) => Err(message),
        Ok(state) => if state == enabled {
            Ok(())
        } else {
            Err(owned(AUTOSTART_NOT_ACCEPTED))
        },
    }
}

/// Giving the previous shortcut back in place of the attempted one: the
/// attempted one is released when it is registered, the previous one is
/// registered when it is not; nothing is done when they are the same.
/// The answer is (release the attempted one, register the previous one).
pub fn restore_shortcut_plan(
    previous: &str,
    attempted: &str,
    attempted_registered: bool,
    previous_registered: bool,
) -> (r: (bool, bool))
    ensures
        previous@ == attempted@ ==> r == (false, false),
        previous@ != attempted@ ==> r == (attempted_registered, !previous_registered),
{
    if str_eq(previous, attempted) {
        (false, false)
    } else {
        (attempted_registered, !previous_registered)
    }
}

/// The mail status from its parts: the last delivery gives the result, the
/// error code and the time of the last attempt.
pub fn smtp_status(
    password_configured: bool,
    verified_at: Option<String>,
    last: Option<NotificationDelivery>,
) -> (r: SmtpStatus)
    ensures
        r.password_configured == password_configured,
        r.verified_at == verified_at,
        match last {
            Some(d) => r.last_result == Some(d.result) && r.last_error_code == d.error_code
                && r.last_attempt_at == Some(d.attempted_at),
            None => r.last_result is None && r.last_error_code is None && r.last_attempt_at is None,
        },
{
    match last {
        Some(d) => SmtpStatus {
            password_configured,
            verified_at,
            last_result: Some(d.result),
            last_error_code: d.error_code,
            last_attempt_at: Some(d.attempted_at),
        },
        None => SmtpStatus {
            password_configured,
            verified_at,
            last_result: None,
            last_error_code: None,
            last_attempt_at: None,
        },
    }
}

/// The notification status with the last delivery attempt added; a failed
/// attempt replaces the message with advice that depends on its error code.
pub fn notification_status_with_delivery(
    status: NotificationStatus,
    last: Option<NotificationDelivery>,
) -> (r: NotificationStatus)
    ensures
        r.platform == status.platform,
        r.portable == status.portable,
        r.identity_status == status.identity_status,
        r.can_notify == status.can_notify,
        match last {
            None => r == status,
            Some(d) => r.last_result == Some(d.result) && r.last_error_code == d.error_code
                && r.last_attempt_at == Some(d.attempted_at) && if d.result@ == "FAILED"@ {
                r.message@ == failure_advice(d.error_code)
            } else {
                r.message == status.message
            },
        },
{
    match last {
        None => status,
        Some(d) => {
            let mut status = status;
            if str_eq(d.result.as_str(), "FAILED") {
                status.message = failure_advice_text(&d.error_code);
            }
            status.last_result = Some(d.result);
            status.last_error_code = d.error_code;
            status.last_attempt_at = Some(d.attempted_at);
            status
        },
    }
}

/// The advice shown after a failed notification, by error code.
pub open spec fn failure_advice(code: Option<String>) -> Seq<char> {
    match code {
        Some(c) => if c@ == "identity_registration_required"@ {
            "便携版通知身份尚未注册，请先点击“启用便携版系统通知”。"@
        } else if c@ == "platform_submit_failed"@ {
            "最近一次未能提交给系统；请检查 Windows“系统 > 通知”和专注模式后重试。"@
        } else {
            "最近一次系统通知提交失败，后台会自动重试；可再次运行测试通知核对。"@
        },
        None => "最近一次系统通知提交失败，后台会自动重试；可再次运行测试通知核对。"@,
    }
}

fn failure_advice_text(code: &Option<String>) -> (r: String)
    ensures
        r@ == failure_advice(*code),
{
    let generic = "最近一次系统通知提交失败，后台会自动重试；可再次运行测试通知核对。";
    match code {
        Some(c) => if str_eq(c.as_str(), "identity_registration_required") {
            owned("便携版通知身份尚未注册，请先点击“启用便携版系统通知”。")
        } else if str_eq(c.as_str(), "platform_submit_failed") {
            owned("最近一次未能提交给系统；请检查 Windows“系统 > 通知”和专注模式后重试。")
        } else {
            owned(generic)
        },
        None => owned(generic),
    }
}

/// The complaint after the portable notification identity could not be
/// registered (or removed).
pub fn portable_registration_error(register: bool, diagnostic: &str) -> (r: String)
    ensures
        r@ == (if register {
            "无法启用便携版系统通知："@
        } else {
            "无法撤销便携版系统通知："@
        }) + diagnostic@,
{
    if register {
        concat("无法启用便携版系统通知：", diagnostic)
    } else {
        concat("无法撤销便携版系统通知：", diagnostic)
    }
}

// ---------------------------------------------------------------------------
// About and updates
// ---------------------------------------------------------------------------
/// The system the application runs on, as far as updates care.
#[derive(Debug, Clone, Copy, PartialEq, Eq, Structural)]
pub enum Platform {
    Windows,
    MacOs,
    /// Another Unix; `appimage` tells whether it runs as an AppImage.
    OtherUnix { appimage: bool },
}

/// How an update is installed: automatically, except for the portable
/// Windows build and Unix builds that are not AppImages, which only
/// download.
pub open spec fn automatic_install(portable: bool, platform: Platform) -> bool {
    match platform {
        Platform::Windows => !portable,
        Platform::MacOs => true,
        Platform::OtherUnix { appimage } => appimage,
    }
}

/// The install mode's name, `AUTOMATIC` or `DOWNLOAD_ONLY`.
pub fn update_install_mode(portable: bool, platform: Platform) -> (r: &'static str)
    ensures
        r@ == (if automatic_install(portable, platform) {
            "AUTOMATIC"@
        } else {
            "DOWNLOAD_ONLY"@
        }),
{
    let automatic = match platform {
        Platform::Windows => !portable,
        Platform::MacOs => true,
        Platform::OtherUnix { appimage } => appimage,
    };
    if automatic {
        "AUTOMATIC"
    } else {
        "DOWNLOAD_ONLY"
    }
}

/// The application's name.
pub const APP_NAME: &'static str = "闪记";

/// The copyright line.
pub const COPYRIGHT: &'static str = "© 2026 闪记";

/// The "about" record of this build.
pub fn app_info(version: &str, portable: bool, platform: Platform) -> (r: AppInfo)
    ensures
        r.name@ == APP_NAME@,
        r.version@ == version@,
        r.copyright@ == COPYRIGHT@,
        r.portable == portable,
        r.update_install_mode@ == (if automatic_install(portable, platform) {
            "AUTOMATIC"@
        } else {
            "DOWNLOAD_ONLY"@
        }),
{
    AppInfo {
        name: owned(APP_NAME),
        version: owned(version),
        copyright: owned(COPYRIGHT),
        portable,
        update_install_mode: owned(update_install_mode(portable, platform)),
    }
}

/// A character allowed in a release version: an ASCII letter or digit,
/// `.`, `-` or `+`.
pub open spec fn release_char(c: char) -> bool {
    ('0' <= c <= '9') || ('a' <= c <= 'z') || ('A' <= c <= 'Z') || c == '.' || c == '-' || c == '+'
}

/// A release version: 1 to 64 allowed characters.
pub open spec fn valid_release_version_spec(s: Seq<char>) -> bool {
    0 < s.len() <= 64 && forall|i: int| 0 <= i < s.len() ==> release_char(#[trigger] s[i])
}

/// Whether the text can name a release.
pub fn valid_release_version(version: &str) -> (r: bool)
    ensures
        r == valid_release_version_spec(version@),
{
    let chars = crate::text::chars_of(version);
    let n = chars.len();
    if n == 0 || n > 64 {
        return false;
    }
    let mut i: usize = 0;
    while i < n
        invariant
            n == chars@.len(),
            chars@ == version@,
            i <= n,
            forall|j: int| 0 <= j < i ==> release_char(#[trigger] version@[j]),
        decreases n - i,
    {
        let c = chars[i];
        let ok = ('0' <= c && c <= '9') || ('a' <= c && c <= 'z') || ('A' <= c && c <= 'Z') || c
            == '.' || c == '-' || c == '+';
        if !ok {
            return false;
        }
        i = i + 1;
    }
    true
}

/// The release page.
pub const RELEASES_URL: &'static str = "https://github.com/your-xunzong/shanji/releases";

/// The page of a release, or of all releases; an unknown version is
/// refused.
pub fn release_page_url(version: &Option<String>) -> (r: Result<String, String>)
    ensures
        match version {
            None => r matches Ok(u) && u@ == RELEASES_URL@,
            Some(v) => if valid_release_version_spec(v@) {
                r matches Ok(u) && u@ == RELEASES_URL@ + "/tag/v"@ + v@
            } else {
                r matches Err(m) && m@ == "无法识别要打开的版本。"@
            },
        },
{
    match version {
        None => Ok(owned(RELEASES_URL)),
        Some(v) => if valid_release_version(v.as_str()) {
            let a = concat(RELEASES_URL, "/tag/v");
            let r = concat(a.as_str(), v.as_str());
            Ok(r)
        } else {
            Err(owned("无法识别要打开的版本。"))
        },
    }
}

/// The tray entry for updates: the new version when one is known, else
/// "check for updates"; an unknown version is refused.
pub fn tray_update_text(version: &Option<String>) -> (r: Result<String, String>)
    ensures
        match version {
            None => r matches Ok(t) && t@ == "检查更新"@,
            Some(v) => if valid_release_version_spec(v@) {
                r matches Ok(t) && t@ == "新版本 v"@ + v@
            } else {
                r matches Err(m) && m@ == "无法识别更新版本。"@
            },
        },
{
    match version {
        None => Ok(owned("检查更新")),
        Some(v) => if valid_release_version(v.as_str()) {
            Ok(concat("新版本 v", v.as_str()))
        } else {
            Err(owned("无法识别更新版本。"))
        },
    }
}

/// The complaint when a new release was recorded but its notification
/// could not be shown.
pub const UPDATE_NOTICE_FAILED: &'static str = "新版本已在闪记中显示，但系统通知暂时没有发出。";

// ---------------------------------------------------------------------------
// Mail and notification tests
// ---------------------------------------------------------------------------
/// A mail test needs mail switched on.
pub fn smtp_test_ready(settings: &Settings) -> (r: Result<(), String>)
    ensures
        settings.smtp_enabled <==> r is Ok,
        r matches Err(m) ==> m@ == "请先启用邮件通知并保存设置。"@,
{
    if settings.smtp_enabled {
        Ok(())
    } else {
        Err(owned("请先启用邮件通知并保存设置。"))
    }
}

/// The reply after the server accepted the test mail.
pub fn smtp_test_reply(recipient: &str) -> (r: String)
    ensures
        r@ == "测试邮件已由服务器接受，并发送到 "@ + recipient@ + "。"@,
{
    let a = concat("测试邮件已由服务器接受，并发送到 ", recipient);
    concat(a.as_str(), "。")
}

/// A notification test needs notifications switched on and a system that
/// can show them (else its status message is the complaint).
pub fn notification_test_ready(notifications_enabled: bool, status: &NotificationStatus) -> (r:
    Result<(), String>)
    ensures
        !notifications_enabled ==> (r matches Err(m) && m@ == "通知总开关已关闭，请先启用系统通知"@),
        notifications_enabled && !status.can_notify ==> r == Err::<(), String>(status.message),
        notifications_enabled && status.can_notify ==> r is Ok,
{
    if !notifications_enabled {
        Err(owned("通知总开关已关闭，请先启用系统通知"))
    } else if !status.can_notify {
        Err(status.message.clone())
    } else {
        Ok(())
    }
}

/// Seconds after which the test item falls due.
pub const TEST_ITEM_DELAY_SECONDS: i64 = 10;

/// The test item's title.
pub const TEST_ITEM_TITLE: &'static str = "通知测试：闪记提醒功能正常";

/// The test item's notes.
pub const TEST_ITEM_NOTES: &'static str = "这是一条本地测试事项，可在确认通知后将其标记完成。";

/// The item created by a notification test at `now`: a one-time event
/// reminding once, due ten seconds later.
pub fn notification_test_input(now: i64) -> (r: CreateItemInput)
    requires
        instant_ok(now as int),
    ensures
        r.title@ == TEST_ITEM_TITLE@,
        r.notes@ == TEST_ITEM_NOTES@,
        r.category_id is None,
        r.due_at matches Some(d) && d@ == crate::clock::chrono_rfc3339_text(
            (now + TEST_ITEM_DELAY_SECONDS) as i64,
        ),
        !r.must_complete_today,
        r.repeat_interval_minutes is None,
        r.tag_ids@.len() == 0,
        r.event matches Some(e) && (e.kind matches Some(k) && k@ == "ONE_TIME"@) && (
        e.reminder_plan matches Some(p) && p@ == "ONCE"@) && !e.important && e.start_at is None
            && e.end_at is None && e.target_at is None && e.lead_value is None && e.lead_unit is None
            && e.cadence_value is None && e.cadence_unit is None && e.emphasis_max_per_day is None
            && e.repeat_time_mode is None && e.repeat_times@.len() == 0,
{
    let due = format_rfc3339(now + TEST_ITEM_DELAY_SECONDS);
    CreateItemInput {
        title: owned(TEST_ITEM_TITLE),
        notes: owned(TEST_ITEM_NOTES),
        category_id: None,
        due_at: Some(due),
        must_complete_today: false,
        repeat_interval_minutes: None,
        tag_ids: Vec::new(),
        event: Some(
            EventConfigurationInput {
                kind: Some(owned("ONE_TIME")),
                reminder_plan: Some(owned("ONCE")),
                important: false,
                start_at: None,
                end_at: None,
                target_at: None,
                lead_value: None,
                lead_unit: None,
                cadence_value: None,
                cadence_unit: None,
                emphasis_max_per_day: None,
                repeat_time_mode: None,
                repeat_times: Vec::new(),
            },
        ),
    }
}

/// The two ways a reminder can be tried out.
#[derive(Debug, Clone, Copy, PartialEq, Eq, Structural)]
pub enum ReminderTestMode {
    /// A native persistent reminder, about two seconds later.
    Persistent,
    /// The always-on-top reminder window, at once.
    Overlay,
}

/// Reads the requested test mode.
pub fn reminder_test_mode(mode: &str) -> (r: Result<ReminderTestMode, String>)
    ensures
        mode@ == "persistent"@ ==> r == Ok::<ReminderTestMode, String>(ReminderTestMode::Persistent),
        mode@ == "overlay"@ ==> r == Ok::<ReminderTestMode, String>(ReminderTestMode::Overlay),
        mode@ != "persistent"@ && mode@ != "overlay"@ ==> (r matches Err(m) && m@
            == "未知的提醒测试方式"@),
{
    proof {
        reveal_strlit("persistent");
        reveal_strlit("overlay");
        assert("overlay"@.len() != "persistent"@.len());
    }
    if str_eq(mode, "persistent") {
        Ok(ReminderTestMode::Persistent)
    } else if str_eq(mode, "overlay") {
        Ok(ReminderTestMode::Overlay)
    } else {
        Err(owned("未知的提醒测试方式"))
    }
}

/// The reminder shown by a test on the test item: a persistent test shows
/// a "today must" reminder under the force plan, an overlay test the
/// item's own policy, kind and plan; neither carries tags.
pub fn reminder_test_notification(mode: ReminderTestMode, item: Item) -> (r: DueNotification)
    ensures
        r.event_id@ == (match mode {
            ReminderTestMode::Persistent => "test-persistent-"@,
            ReminderTestMode::Overlay => "test-overlay-"@,
        }) + item.id@,
        r.item_id == item.id,
        r.title == item.title,
        r.due_local_date == item.due_local_date,
        r.due_local_time == item.due_local_time,
        r.tag_ids@.len() == 0,
        mode == ReminderTestMode::Persistent ==> r.completion_policy@ == "MUST_COMPLETE_TODAY"@ && (
        r.event_kind matches Some(k) && k@ == "TODAY_MUST"@) && r.reminder_plan@ == "FORCE"@,
        mode == ReminderTestMode::Overlay ==> r.completion_policy == item.completion_policy
            && r.event_kind == item.event_kind && r.reminder_plan == item.reminder_plan,
{
    match mode {
        ReminderTestMode::Persistent => DueNotification {
            event_id: concat("test-persistent-", item.id.as_str()),
            item_id: item.id,
            title: item.title,
            due_local_date: item.due_local_date,
            due_local_time: item.due_local_time,
            completion_policy: owned("MUST_COMPLETE_TODAY"),
            event_kind: Some(owned("TODAY_MUST")),
            reminder_plan: owned("FORCE"),
            tag_ids: Vec::new(),
        },
        ReminderTestMode::Overlay => DueNotification {
            event_id: concat("test-overlay-", item.id.as_str()),
            item_id: item.id,
            title: item.title,
            due_local_date: item.due_local_date,
            due_local_time: item.due_local_time,
            completion_policy: item.completion_policy,
            event_kind: item.event_kind,
            reminder_plan: item.reminder_plan,
            tag_ids: Vec::new(),
        },
    }
}

/// The reply to a reminder test.
pub fn reminder_test_reply(mode: ReminderTestMode) -> (r: &'static str)
    ensures
        r@ == (match mode {
            ReminderTestMode::Persistent => "约 2 秒后显示原生持续提醒；若系统不支持会自动使用标准通知。"@,
            ReminderTestMode::Overlay => "置顶提醒窗已显示；关闭窗口不会把事项标记完成。"@,
        }),
{
    match mode {
        ReminderTestMode::Persistent => "约 2 秒后显示原生持续提醒；若系统不支持会自动使用标准通知。",
        ReminderTestMode::Overlay => "置顶提醒窗已显示；关闭窗口不会把事项标记完成。",
    }
}

// ---------------------------------------------------------------------------
// Data locations
// ---------------------------------------------------------------------------
/// Some place in the list names the path.
pub open spec fn listed(path: Seq<char>, places: Seq<String>) -> bool {
    exists|i: int| 0 <= i < places.len() && std_path_eq(#[trigger] places[i]@, path)
}

/// Whether the list holds the path, compared as paths.
pub fn path_listed(path: &str, places: &[String]) -> (r: bool)
    ensures
        r == listed(path@, places@),
{
    let mut i: usize = 0;
    while i < places.len()
        invariant
            i <= places@.len(),
            forall|j: int| 0 <= j < i ==> !std_path_eq(#[trigger] places@[j]@, path@),
        decreases places@.len() - i,
    {
        if same_path(places[i].as_str(), path) {
            return true;
        }
        i = i + 1;
    }
    false
}

/// A restore may only use data found in one of the places searched.
pub fn restore_request_allowed(requested: &str, candidates: &[String]) -> (r: Result<(), String>)
    ensures
        listed(requested@, candidates@) <==> r is Ok,
        r matches Err(m) ==> m@ == "这份数据不在闪记识别的恢复位置中，请重新刷新后选择。"@,
{
    if path_listed(requested, candidates) {
        Ok(())
    } else {
        Err(owned("这份数据不在闪记识别的恢复位置中，请重新刷新后选择。"))
    }
}

/// A restore at startup is only for a start that is not ready, and only
/// from a candidate the startup check offered.
pub fn startup_restore_allowed(state: &StartupState, requested: &str) -> (r: AppResult<()>)
    ensures
        state.status.mode == StartupMode::Ready ==> (r matches Err(AppError::Validation(m)) && m@
            == "当前数据已经正常打开，无需执行启动恢复。"@),
        state.status.mode != StartupMode::Ready ==> (r is Ok <==> crate::startup::recovery_allowed(
            *state,
            requested@,
        )),
{
    if state.status.mode == StartupMode::Ready {
        return Err(AppError::Validation(owned("当前数据已经正常打开，无需执行启动恢复。")));
    }
    ensure_recovery_candidate_allowed(state, requested)
}

/// The startup screen may only open the data file or a searched place.
pub fn startup_directory_allowed(state: &StartupState, requested: &str) -> (r: Result<(), String>)
    ensures
        (std_path_eq(requested@, state.target_path@) || listed(requested@, state.candidate_paths@))
            <==> r is Ok,
        r matches Err(m) ==> m@ == "这不是闪记当前识别的数据位置。"@,
{
    if same_path(requested, state.target_path.as_str()) || path_listed(
        requested,
        state.candidate_paths.as_slice(),
    ) {
        Ok(())
    } else {
        Err(owned("这不是闪记当前识别的数据位置。"))
    }
}

/// The guide version stored after completing `version`: never lower than
/// the one stored before.
pub fn onboarding_after(stored: u32, version: u32) -> (r: u32)
    ensures
        r == onboarding_after_spec(stored, version),
{
    if stored < version {
        version
    } else {
        stored
    }
}

/// The completed guide version only moves forward: completing any version
/// never lowers it, and completing an older version after a newer one
/// leaves the newer one.
pub proof fn lemma_onboarding_only_moves_forward(stored: u32, first: u32, second: u32)
    ensures
        onboarding_after_spec(stored, first) >= stored,
        onboarding_after_spec(onboarding_after_spec(stored, first), second) >= onboarding_after_spec(
            stored,
            first,
        ),
        second <= first ==> onboarding_after_spec(onboarding_after_spec(stored, first), second)
            == onboarding_after_spec(stored, first),
{
}

/// The guide version stored after completing `version`.
pub open spec fn onboarding_after_spec(stored: u32, version: u32) -> u32 {
    if stored < version {
        version
    } else {
        stored
    }
}

} // verus!
