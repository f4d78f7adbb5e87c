//! System notifications: the status shown to the user, the identity checks
//! before a toast is submitted, and the texts and buttons of each toast.
use vstd::prelude::*;

use crate::records::DueNotification;
use crate::text::{concat, decimal_seq, owned, str_eq, u64_to_string};

verus! {

/// Why a notification could not be submitted.
#[derive(Debug, Clone)]
pub struct DeliveryError {
    pub code: String,
    pub diagnostic: String,
}

/// What the settings page shows about system notifications.
#[derive(Debug, Clone)]
pub struct NotificationStatus {
    pub platform: String,
    pub portable: bool,
    pub identity_status: String,
    pub can_notify: bool,
    pub message: String,
    pub last_result: Option<String>,
    pub last_error_code: Option<String>,
    pub last_attempt_at: Option<String>,
}

/// The application identity of the installed Windows build.
pub const WINDOWS_INSTALLED_APP_ID: &'static str = "com.shanji.desktop";

/// The application identity of the portable Windows build.
pub const WINDOWS_PORTABLE_APP_ID: &'static str = "com.shanji.desktop.portable";

/// Where the installed build registers its identity.
pub const WINDOWS_INSTALLED_REGISTRY_PATH: &'static str =
    "Software\\Classes\\AppUserModelId\\com.shanji.desktop";

/// Where the portable build registers its identity.
pub const WINDOWS_PORTABLE_REGISTRY_PATH: &'static str =
    "Software\\Classes\\AppUserModelId\\com.shanji.desktop.portable";

/// The application identity under which toasts are shown.
pub fn windows_app_id(portable: bool) -> (r: &'static str)
    ensures
        r@ == (if portable {
            WINDOWS_PORTABLE_APP_ID@
        } else {
            WINDOWS_INSTALLED_APP_ID@
        }),
{
    if portable {
        WINDOWS_PORTABLE_APP_ID
    } else {
        WINDOWS_INSTALLED_APP_ID
    }
}

/// The registry key that holds the identity.
pub fn windows_registry_path(portable: bool) -> (r: &'static str)
    ensures
        r@ == (if portable {
            WINDOWS_PORTABLE_REGISTRY_PATH@
        } else {
            WINDOWS_INSTALLED_REGISTRY_PATH@
        }),
{
    if portable {
        WINDOWS_PORTABLE_REGISTRY_PATH
    } else {
        WINDOWS_INSTALLED_REGISTRY_PATH
    }
}

/// The notification status on Windows, from whether the identity is
/// registered: a portable build without one must register first, a
/// registered one is ready, and an installed build without one is broken.
/// Only a registered identity can notify.
pub fn windows_status(portable: bool, registered: bool) -> (r: NotificationStatus)
    ensures
        r.platform@ == "windows"@,
        r.portable == portable,
        r.can_notify == registered,
        r.identity_status@ == (if portable && !registered {
            "registration_required"@
        } else if registered {
            "ready"@
        } else {
            "unavailable"@
        }),
        r.message@ == (if portable && !registered {
            "便携版尚未注册系统通知身份，启用后才能显示 Windows 原生横幅。"@
        } else if registered {
            "系统通知身份已就绪；横幅仍受 Windows 通知和专注模式控制。"@
        } else {
            "系统通知身份初始化失败，请重新安装或检查系统通知设置。"@
        }),
        r.last_result is None && r.last_error_code is None && r.last_attempt_at is None,
{
    let (identity_status, message) = if portable && !registered {
        ("registration_required", "便携版尚未注册系统通知身份，启用后才能显示 Windows 原生横幅。")
    } else if registered {
        ("ready", "系统通知身份已就绪；横幅仍受 Windows 通知和专注模式控制。")
    } else {
        ("unavailable", "系统通知身份初始化失败，请重新安装或检查系统通知设置。")
    };
    NotificationStatus {
        platform: owned("windows"),
        portable,
        identity_status: owned(identity_status),
        can_notify: registered,
        message: owned(message),
        last_result: None,
        last_error_code: None,
        last_attempt_at: None,
    }
}

/// The notification status on other systems, named `os`: always ready.
pub fn platform_status(os: &str, portable: bool) -> (r: NotificationStatus)
    ensures
        r.platform@ == os@,
        r.portable == portable,
        r.identity_status@ == "ready"@,
        r.can_notify,
        r.message@ == "系统通知适配器已就绪；显示行为受操作系统权限与勿扰设置控制。"@,
        r.last_result is None && r.last_error_code is None && r.last_attempt_at is None,
{
    NotificationStatus {
        platform: owned(os),
        portable,
        identity_status: owned("ready"),
        can_notify: true,
        message: owned("系统通知适配器已就绪；显示行为受操作系统权限与勿扰设置控制。"),
        last_result: None,
        last_error_code: None,
        last_attempt_at: None,
    }
}

/// A delivery error with the given code and diagnostic.
pub fn delivery_error(code: &str, diagnostic: &str) -> (r: DeliveryError)
    ensures
        r.code@ == code@,
        r.diagnostic@ == diagnostic@,
{
    DeliveryError { code: owned(code), diagnostic: owned(diagnostic) }
}

/// What registering or unregistering the portable identity comes to.
#[derive(Debug, Clone)]
pub enum PortableStep {
    /// Nothing to change: report the current status.
    Unchanged,
    /// Write (or remove) the identity in the registry, then report.
    Perform,
    /// Refused with this error.
    Refuse(DeliveryError),
}

/// Registering the portable identity: nothing to do for an installed
/// build, impossible off Windows, otherwise performed.
pub fn register_portable_step(portable: bool, windows: bool) -> (r: PortableStep)
    ensures
        !portable ==> r is Unchanged,
        portable && !windows ==> (r matches PortableStep::Refuse(e) && e.code@
            == "portable_registration_unsupported"@ && e.diagnostic@
            == "当前平台不需要 Windows 便携通知注册"@),
        portable && windows ==> r is Perform,
{
    if !portable {
        PortableStep::Unchanged
    } else if !windows {
        PortableStep::Refuse(
            delivery_error("portable_registration_unsupported", "当前平台不需要 Windows 便携通知注册"),
        )
    } else {
        PortableStep::Perform
    }
}

/// Unregistering the portable identity: the installer owns an installed
/// build's identity, other systems have none, otherwise performed.
pub fn unregister_portable_step(portable: bool, windows: bool) -> (r: PortableStep)
    ensures
        !portable ==> (r matches PortableStep::Refuse(e) && e.code@ == "installed_identity_required"@
            && e.diagnostic@ == "安装版通知身份由安装器管理"@),
        portable && !windows ==> (r matches PortableStep::Refuse(e) && e.code@
            == "portable_registration_unsupported"@ && e.diagnostic@
            == "当前平台不需要 Windows 便携通知注册"@),
        portable && windows ==> r is Perform,
{
    if !portable {
        PortableStep::Refuse(delivery_error("installed_identity_required", "安装版通知身份由安装器管理"))
    } else if !windows {
        PortableStep::Refuse(
            delivery_error("portable_registration_unsupported", "当前平台不需要 Windows 便携通知注册"),
        )
    } else {
        PortableStep::Perform
    }
}

/// Before a Windows toast: a portable build without a registered identity
/// is refused; otherwise the answer says whether the identity must first be
/// registered.
pub fn identity_check(portable: bool, registered: bool) -> (r: Result<bool, DeliveryError>)
    ensures
        portable && !registered ==> (r matches Err(e) && e.code@ == "identity_registration_required"@
            && e.diagnostic@ == "便携版通知身份尚未注册"@),
        !(portable && !registered) ==> r == Ok::<bool, DeliveryError>(!registered),
{
    if portable && !registered {
        Err(delivery_error("identity_registration_required", "便携版通知身份尚未注册"))
    } else {
        Ok(!registered)
    }
}

/// `到期：date time`, the due line of a reminder toast.
pub open spec fn due_line(n: DueNotification) -> Seq<char> {
    "到期："@ + n.due_local_date@ + " "@ + n.due_local_time@
}

/// The due line of a reminder toast.
pub fn reminder_due_line(n: &DueNotification) -> (r: String)
    ensures
        r@ == due_line(*n),
{
    let a = concat("到期：", n.due_local_date.as_str());
    let b = concat(a.as_str(), " ");
    let r = concat(b.as_str(), n.due_local_time.as_str());
    proof {
        assert(r@ =~= due_line(*n));
    }
    r
}

/// The body of a reminder notification off Windows: the title, a line
/// break, then the due line.
pub fn reminder_body(n: &DueNotification) -> (r: String)
    ensures
        r@ == n.title@ + "\n"@ + due_line(*n),
{
    let line = reminder_due_line(n);
    let a = concat(n.title.as_str(), "\n");
    let r = concat(a.as_str(), line.as_str());
    proof {
        assert(r@ =~= n.title@ + "\n"@ + due_line(*n));
    }
    r
}

/// The title of every reminder toast.
pub const REMINDER_TITLE: &'static str = "闪记提醒";

/// The title of the toast about items that wait for an event kind.
pub const CLASSIFICATION_TITLE: &'static str = "闪记 · 待选择事件类型";

/// The title of the toast about a new release.
pub const UPDATE_TITLE: &'static str = "闪记 · 新版本可用";

/// The first line of the classification toast on Windows.
pub open spec fn classification_line(count: nat) -> Seq<char> {
    if count == 1 {
        "这条记录还没有选择事件类型"@
    } else {
        "有 "@ + decimal_seq(count) + " 条记录还没有选择事件类型"@
    }
}

/// The first line of the classification toast on Windows.
pub fn classification_text(count: usize) -> (r: String)
    ensures
        r@ == classification_line(count as nat),
{
    if count == 1 {
        owned("这条记录还没有选择事件类型")
    } else {
        let n = u64_to_string(count as u64);
        let a = concat("有 ", n.as_str());
        let r = concat(a.as_str(), " 条记录还没有选择事件类型");
        proof {
            assert(r@ =~= classification_line(count as nat));
        }
        r
    }
}

/// The body of the classification notification off Windows: the line
/// above followed by a hint to open the application.
pub fn classification_body(count: usize) -> (r: String)
    ensures
        r@ == classification_line(count as nat) + "。打开闪记即可处理。"@,
{
    let line = classification_text(count);
    concat(line.as_str(), "。打开闪记即可处理。")
}

/// The buttons of the classification toast, as (label, action) pairs: one
/// item can be made ordinary directly; several are only opened.
pub fn classification_buttons(count: usize) -> (r: Vec<(&'static str, &'static str)>)
    ensures
        count == 1 ==> r@.len() == 3 && r@[0].0@ == "设为普通"@ && r@[0].1@ == "set-ordinary"@
            && r@[1].0@ == "选择其他事件类型"@ && r@[1].1@ == "choose-type"@ && r@[2].0@ == "稍后处理"@
            && r@[2].1@ == "snooze-classification"@,
        count != 1 ==> r@.len() == 2 && r@[0].0@ == "处理待选类型"@ && r@[0].1@ == "choose-type"@
            && r@[1].0@ == "稍后处理"@ && r@[1].1@ == "snooze-classification"@,
{
    let mut buttons: Vec<(&'static str, &'static str)> = Vec::new();
    if count == 1 {
        buttons.push(("设为普通", "set-ordinary"));
        buttons.push(("选择其他事件类型", "choose-type"));
    } else {
        buttons.push(("处理待选类型", "choose-type"));
    }
    buttons.push(("稍后处理", "snooze-classification"));
    buttons
}

/// The first line of the release toast on Windows: `可以更新到 v<version>`.
pub fn update_text(version: &str) -> (r: String)
    ensures
        r@ == "可以更新到 v"@ + version@,
{
    concat("可以更新到 v", version)
}

/// The body of the release notification off Windows.
pub fn update_body(version: &str) -> (r: String)
    ensures
        r@ == "可以更新到 v"@ + version@ + "。打开闪记查看本次变化。"@,
{
    let line = update_text(version);
    concat(line.as_str(), "。打开闪记查看本次变化。")
}

/// What a click on a reminder toast asks for.
#[derive(Debug, Clone, Copy, PartialEq, Eq, Structural)]
pub enum ReminderAction {
    Complete,
    /// Remind again in fifteen minutes.
    Snooze,
    Open,
}

/// Minutes by which the toast's snooze button postpones a reminder.
pub const TOAST_SNOOZE_MINUTES: u32 = 15;

/// Reads the action argument of a reminder toast; anything unknown opens
/// the application.
pub fn reminder_action(action: Option<&str>) -> (r: ReminderAction)
    ensures
        r == (match action {
            Some(a) => if a@ == "complete"@ {
                ReminderAction::Complete
            } else if a@ == "snooze"@ {
                ReminderAction::Snooze
            } else {
                ReminderAction::Open
            },
            None => ReminderAction::Open,
        }),
{
    match action {
        Some(a) => if str_eq(a, "complete") {
            ReminderAction::Complete
        } else if str_eq(a, "snooze") {
            ReminderAction::Snooze
        } else {
            ReminderAction::Open
        },
        None => ReminderAction::Open,
    }
}

/// What a click on the classification toast asks for.
#[derive(Debug, Clone, Copy, PartialEq, Eq, Structural)]
pub enum ClassificationAction {
    SetOrdinary,
    /// Ask again in an hour.
    Snooze,
    Open,
    /// Nothing to do: "make ordinary" on a toast about several items.
    Ignore,
}

/// Minutes by which the classification toast's snooze button postpones.
pub const CLASSIFICATION_SNOOZE_MINUTES: u32 = 60;

/// Reads the action argument of the classification toast; making an item
/// ordinary needs the item (without one the click does nothing), and
/// anything unknown opens the application.
pub fn classification_action(action: Option<&str>, has_item: bool) -> (r: ClassificationAction)
    ensures
        r == (match action {
            Some(a) => if a@ == "set-ordinary"@ {
                if has_item {
                    ClassificationAction::SetOrdinary
                } else {
                    ClassificationAction::Ignore
                }
            } else if a@ == "snooze-classification"@ {
                ClassificationAction::Snooze
            } else {
                ClassificationAction::Open
            },
            None => ClassificationAction::Open,
        }),
{
    match action {
        Some(a) => if str_eq(a, "set-ordinary") {
            if has_item {
                ClassificationAction::SetOrdinary
            } else {
                ClassificationAction::Ignore
            }
        } else if str_eq(a, "snooze-classification") {
            ClassificationAction::Snooze
        } else {
            ClassificationAction::Open
        },
        None => ClassificationAction::Open,
    }
}

/// The note recorded with a successful reminder submission: a persistent
/// reminder that the system could not show as such is noted.
pub fn persistent_note(persistent: bool, windows: bool, fell_back: bool) -> (r: Option<
    &'static str,
>)
    ensures
        !persistent ==> r is None,
        persistent && !windows ==> (r matches Some(s) && s@ == "persistent_not_supported"@),
        persistent && windows && fell_back ==> (r matches Some(s) && s@
            == "persistent_fell_back_to_standard"@),
        persistent && windows && !fell_back ==> r is None,
{
    if !persistent {
        None
    } else if !windows {
        Some("persistent_not_supported")
    } else if fell_back {
        Some("persistent_fell_back_to_standard")
    } else {
        None
    }
}

} // verus!
