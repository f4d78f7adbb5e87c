//! Reminder e-mails: the HTML and plain-text bodies, the SMTP password kept in
//! the system credential store, and the checks made before a message is handed
//! to the SMTP transport.
use vstd::prelude::*;

use crate::domain::Settings;
use crate::records::DueNotification;
use crate::text::{chars_of, owned, str_eq, string_from_chars, u64_to_string, decimal_seq};

verus! {

// ---------------------------------------------------------------------------
// HTML escaping
// ---------------------------------------------------------------------------
/// What one character of user text becomes inside HTML.
pub open spec fn escaped_char(c: char) -> Seq<char> {
    if c == '&' {
        seq!['&', 'a', 'm', 'p', ';']
    } else if c == '<' {
        seq!['&', 'l', 't', ';']
    } else if c == '>' {
        seq!['&', 'g', 't', ';']
    } else if c == '"' {
        seq!['&', 'q', 'u', 'o', 't', ';']
    } else if c == '\'' {
        seq!['&', '#', '3', '9', ';']
    } else {
        seq![c]
    }
}

/// User text with every markup character replaced by its entity.
pub open spec fn escape_html_seq(s: Seq<char>) -> Seq<char>
    decreases s.len(),
{
    if s.len() == 0 {
        Seq::empty()
    } else {
        escape_html_seq(s.drop_last()) + escaped_char(s.last())
    }
}

/// A character that would open or close markup or an attribute value.
pub open spec fn is_markup_char(c: char) -> bool {
    c == '<' || c == '>' || c == '"' || c == '\''
}

fn escaped_piece(c: char) -> (r: Vec<char>)
    ensures
        r@ == escaped_char(c),
{
    if c == '&' {
        vec!['&', 'a', 'm', 'p', ';']
    } else if c == '<' {
        vec!['&', 'l', 't', ';']
    } else if c == '>' {
        vec!['&', 'g', 't', ';']
    } else if c == '"' {
        vec!['&', 'q', 'u', 'o', 't', ';']
    } else if c == '\'' {
        vec!['&', '#', '3', '9', ';']
    } else {
        vec![c]
    }
}

/// Escapes `&`, `<`, `>`, `"` and `'` so that user text can stand in HTML.
pub fn escape_html(value: &str) -> (r: String)
    ensures
        r@ == escape_html_seq(value@),
{
    let chars = chars_of(value);
    let mut out: Vec<char> = Vec::new();
    let mut i: usize = 0;
    while i < chars.len()
        invariant
            i <= chars@.len(),
            out@ == escape_html_seq(chars@.subrange(0, i as int)),
        decreases chars@.len() - i,
    {
        let mut piece = escaped_piece(chars[i]);
        out.append(&mut piece);
        proof {
            let next = chars@.subrange(0, i as int + 1);
            assert(next.drop_last() =~= chars@.subrange(0, i as int));
            assert(next.last() == chars@[i as int]);
        }
        i = i + 1;
    }
    assert(chars@.subrange(0, chars@.len() as int) =~= chars@);
    string_from_chars(&out)
}

/// Escaped text holds no character that could open markup or leave an
/// attribute value.
pub proof fn lemma_escaped_text_has_no_markup(s: Seq<char>)
    ensures
        forall|j: int|
            0 <= j < escape_html_seq(s).len() ==> !is_markup_char(#[trigger] escape_html_seq(s)[j]),
    decreases s.len(),
{
    if s.len() > 0 {
        lemma_escaped_text_has_no_markup(s.drop_last());
        let head = escape_html_seq(s.drop_last());
        let tail = escaped_char(s.last());
        assert forall|j: int| 0 <= j < escape_html_seq(s).len() implies !is_markup_char(
            #[trigger] escape_html_seq(s)[j],
        ) by {
            if j >= head.len() {
                assert(escape_html_seq(s)[j] == tail[j - head.len()]);
            } else {
                assert(escape_html_seq(s)[j] == head[j]);
            }
        }
    }
}

/// Text without `&` or markup characters is left as it is.
pub proof fn lemma_plain_text_is_unchanged(s: Seq<char>)
    requires
        forall|j: int| 0 <= j < s.len() ==> s[j] != '&' && !is_markup_char(#[trigger] s[j]),
    ensures
        escape_html_seq(s) == s,
    decreases s.len(),
{
    if s.len() > 0 {
        lemma_plain_text_is_unchanged(s.drop_last());
        assert(s.drop_last().push(s.last()) =~= s);
    }
}

/// Escaping distributes over concatenation.
pub proof fn lemma_escape_concat(a: Seq<char>, b: Seq<char>)
    ensures
        escape_html_seq(a + b) == escape_html_seq(a) + escape_html_seq(b),
    decreases b.len(),
{
    if b.len() == 0 {
        assert(a + b =~= a);
    } else {
        lemma_escape_concat(a, b.drop_last());
        assert((a + b).drop_last() =~= a + b.drop_last());
        assert((a + b).last() == b.last());
    }
}

// ---------------------------------------------------------------------------
// Message bodies
// ---------------------------------------------------------------------------
pub const REMINDER_HTML_HEAD: &'static str = "<!doctype html><html><body style=\"margin:0;background:#e9edf2;color:#17202a;font-family:-apple-system,BlinkMacSystemFont,'Segoe UI','Microsoft YaHei',sans-serif\"><table role=\"presentation\" width=\"100%\" cellspacing=\"0\" cellpadding=\"0\"><tr><td align=\"center\" style=\"padding:28px 12px\"><table role=\"presentation\" width=\"560\" cellspacing=\"0\" cellpadding=\"0\" style=\"max-width:100%;background:#f9fafb;border:1px solid #cbd5df\"><tr><td style=\"border-left:5px solid #7d91a6;padding:18px 22px 14px\"><div style=\"font-size:12px;letter-spacing:.12em;color:#607487\">闪记 · ";

pub const REMINDER_HTML_TITLE: &'static str = "</div><h1 style=\"margin:10px 0 4px;font-size:22px;line-height:1.45;font-weight:650\">";

pub const REMINDER_HTML_WHEN: &'static str = "</h1></td></tr><tr><td style=\"padding:18px 22px;border-top:1px solid #d8e0e8\"><div style=\"font-family:Consolas,monospace;font-size:14px;color:#45586a\">计划时间&nbsp; ";

pub const REMINDER_HTML_TAIL: &'static str = "</div><p style=\"margin:20px 0 0;font-size:14px;line-height:1.7;color:#45586a\">请回到闪记完成、稍后提醒或确认已看到。</p></td></tr></table></td></tr></table></body></html>";

pub const DIGEST_ROW_HEAD: &'static str = "<tr><td style=\"padding:13px 0;border-top:1px solid #d8e0e8\"><strong style=\"font-size:15px\">";

pub const DIGEST_ROW_WHEN: &'static str = "</strong><div style=\"margin-top:4px;font-family:Consolas,monospace;font-size:12px;color:#607487\">";

pub const DIGEST_ROW_TAIL: &'static str = "</div></td></tr>";

pub const DIGEST_HTML_HEAD: &'static str = "<!doctype html><html><body style=\"margin:0;background:#e9edf2;color:#17202a;font-family:-apple-system,BlinkMacSystemFont,'Segoe UI','Microsoft YaHei',sans-serif\"><table role=\"presentation\" width=\"100%\" cellspacing=\"0\" cellpadding=\"0\"><tr><td align=\"center\" style=\"padding:28px 12px\"><table role=\"presentation\" width=\"560\" cellspacing=\"0\" cellpadding=\"0\" style=\"max-width:100%;background:#f9fafb;border:1px solid #cbd5df\"><tr><td style=\"border-left:5px solid #2f6f62;padding:18px 22px\"><div style=\"font-size:12px;letter-spacing:.12em;color:#607487\">闪记 · 每日摘要</div><h1 style=\"margin:10px 0 0;font-size:22px\">";

pub const DIGEST_HTML_DATE: &'static str = " 项待处理</h1><p style=\"margin:6px 0 0;font-family:Consolas,monospace;color:#607487\">";

pub const DIGEST_HTML_ROWS: &'static str = "</p></td></tr><tr><td style=\"padding:5px 22px 18px\"><table role=\"presentation\" width=\"100%\" cellspacing=\"0\" cellpadding=\"0\">";

pub const DIGEST_HTML_TAIL: &'static str = "</table><p style=\"margin:18px 0 0;font-size:14px;color:#45586a\">请回到闪记完成、调整或暂停事项。</p></td></tr></table></td></tr></table></body></html>";

pub const TEST_HTML: &'static str = "<!doctype html><html><body style=\"margin:0;background:#e9edf2;color:#17202a;font-family:-apple-system,BlinkMacSystemFont,'Segoe UI','Microsoft YaHei',sans-serif\"><table role=\"presentation\" width=\"100%\"><tr><td align=\"center\" style=\"padding:28px 12px\"><table role=\"presentation\" width=\"560\" style=\"max-width:100%;background:#f9fafb;border:1px solid #cbd5df\"><tr><td style=\"border-left:5px solid #2f6f62;padding:22px\"><div style=\"font-size:12px;letter-spacing:.12em;color:#607487\">闪记 · 连接测试</div><h1 style=\"font-size:22px;margin:10px 0\">邮件设置可以投递</h1><p style=\"font-size:14px;line-height:1.7;color:#45586a\">这封邮件由你主动发送。收到它说明当前邮件服务器已经接受测试消息。</p></td></tr></table></td></tr></table></body></html>";

/// The HTML body of a reminder mail.
pub open spec fn reminder_html_spec(title: Seq<char>, kind: Seq<char>, date: Seq<char>, time: Seq<char>) -> Seq<char> {
    REMINDER_HTML_HEAD@ + escape_html_seq(kind) + REMINDER_HTML_TITLE@ + escape_html_seq(title)
        + REMINDER_HTML_WHEN@ + escape_html_seq(date) + seq![' '] + escape_html_seq(time)
        + REMINDER_HTML_TAIL@
}

/// Builds the HTML body of a reminder mail; every piece of user text is escaped.
pub fn reminder_html(title: &str, kind: &str, date: &str, time: &str) -> (r: String)
    ensures
        r@ == reminder_html_spec(title@, kind@, date@, time@),
{
    let mut out = owned(REMINDER_HTML_HEAD);
    out.append(escape_html(kind).as_str());
    out.append(REMINDER_HTML_TITLE);
    out.append(escape_html(title).as_str());
    out.append(REMINDER_HTML_WHEN);
    out.append(escape_html(date).as_str());
    out.append(" ");
    out.append(escape_html(time).as_str());
    out.append(REMINDER_HTML_TAIL);
    proof {
        reveal_strlit(" ");
    }
    out
}

/// One table row of the daily digest.
pub open spec fn digest_row_spec(n: DueNotification) -> Seq<char> {
    DIGEST_ROW_HEAD@ + escape_html_seq(n.title@) + DIGEST_ROW_WHEN@ + escape_html_seq(n.due_local_date@)
        + seq![' '] + escape_html_seq(n.due_local_time@) + DIGEST_ROW_TAIL@
}

/// The rows of the daily digest, one per reminder, in order.
pub open spec fn digest_rows_spec(ns: Seq<DueNotification>) -> Seq<char>
    decreases ns.len(),
{
    if ns.len() == 0 {
        Seq::empty()
    } else {
        digest_rows_spec(ns.drop_last()) + digest_row_spec(ns.last())
    }
}

/// The HTML body of the daily digest.
pub open spec fn digest_html_spec(local_date: Seq<char>, ns: Seq<DueNotification>) -> Seq<char> {
    DIGEST_HTML_HEAD@ + decimal_seq(ns.len()) + DIGEST_HTML_DATE@ + escape_html_seq(local_date)
        + DIGEST_HTML_ROWS@ + digest_rows_spec(ns) + DIGEST_HTML_TAIL@
}

/// Builds the HTML body of the daily digest: a table with one escaped row per reminder.
pub fn digest_html(local_date: &str, notifications: &[DueNotification]) -> (r: String)
    ensures
        r@ == digest_html_spec(local_date@, notifications@),
{
    let mut rows = String::new();
    let mut i: usize = 0;
    while i < notifications.len()
        invariant
            i <= notifications@.len(),
            rows@ == digest_rows_spec(notifications@.subrange(0, i as int)),
        decreases notifications@.len() - i,
    {
        let n = &notifications[i];
        rows.append(DIGEST_ROW_HEAD);
        rows.append(escape_html(n.title.as_str()).as_str());
        rows.append(DIGEST_ROW_WHEN);
        rows.append(escape_html(n.due_local_date.as_str()).as_str());
        rows.append(" ");
        rows.append(escape_html(n.due_local_time.as_str()).as_str());
        rows.append(DIGEST_ROW_TAIL);
        proof {
            reveal_strlit(" ");
            let next = notifications@.subrange(0, i as int + 1);
            assert(next.drop_last() =~= notifications@.subrange(0, i as int));
            assert(next.last() == notifications@[i as int]);
        }
        i = i + 1;
    }
    assert(notifications@.subrange(0, notifications@.len() as int) =~= notifications@);
    let count = u64_to_string(notifications.len() as u64);
    let mut out = owned(DIGEST_HTML_HEAD);
    out.append(count.as_str());
    out.append(DIGEST_HTML_DATE);
    out.append(escape_html(local_date).as_str());
    out.append(DIGEST_HTML_ROWS);
    out.append(rows.as_str());
    out.append(DIGEST_HTML_TAIL);
    out
}

/// The HTML body of the connection test mail.
pub fn test_html() -> (r: String)
    ensures
        r@ == TEST_HTML@,
{
    owned(TEST_HTML)
}

// ---------------------------------------------------------------------------
// Event kind labels
// ---------------------------------------------------------------------------
/// The Chinese label of a known event kind.
pub open spec fn known_kind_label(kind: Seq<char>) -> Option<Seq<char>> {
    if kind == "ORDINARY"@ {
        Some("普通"@)
    } else if kind == "ONE_TIME"@ {
        Some("一次性"@)
    } else if kind == "TODAY_MUST"@ {
        Some("今日必做"@)
    } else if kind == "WARNING"@ {
        Some("预警"@)
    } else if kind == "CONTINUOUS"@ {
        Some("持续"@)
    } else if kind == "MONTHLY"@ {
        Some("月度"@)
    } else if kind == "YEARLY"@ {
        Some("年度"@)
    } else {
        None
    }
}

/// The label a reminder mail shows for an event kind; an unknown or missing
/// kind reads as not yet chosen.
pub open spec fn mail_kind_label(kind: Option<Seq<char>>) -> Seq<char> {
    match kind {
        Some(k) => match known_kind_label(k) {
            Some(label) => label,
            None => "待选择事件类型"@,
        },
        None => "待选择事件类型"@,
    }
}

/// Looks up the label of a known event kind.
pub fn known_kind_label_of(kind: &str) -> (r: Option<&'static str>)
    ensures
        match r {
            Some(label) => known_kind_label(kind@) == Some(label@),
            None => known_kind_label(kind@) is None,
        },
{
    if str_eq(kind, "ORDINARY") {
        Some("普通")
    } else if str_eq(kind, "ONE_TIME") {
        Some("一次性")
    } else if str_eq(kind, "TODAY_MUST") {
        Some("今日必做")
    } else if str_eq(kind, "WARNING") {
        Some("预警")
    } else if str_eq(kind, "CONTINUOUS") {
        Some("持续")
    } else if str_eq(kind, "MONTHLY") {
        Some("月度")
    } else if str_eq(kind, "YEARLY") {
        Some("年度")
    } else {
        None
    }
}

/// The label a reminder mail shows for the event kind of a reminder.
pub fn event_kind_label(kind: &Option<String>) -> (r: &'static str)
    ensures
        r@ == mail_kind_label(crate::schedule::opt_view(*kind)),
{
    match kind {
        Some(k) => match known_kind_label_of(k.as_str()) {
            Some(label) => label,
            None => "待选择事件类型",
        },
        None => "待选择事件类型",
    }
}

// ---------------------------------------------------------------------------
// Errors
// ---------------------------------------------------------------------------
/// Why a mail could not be prepared or sent: a stable code, a message for the
/// user and a diagnostic for the log.
#[derive(Debug)]
pub struct MailError {
    pub code: String,
    pub user_message: String,
    pub diagnostic: String,
}

/// The credential store could not be opened, read, written or cleared.
pub open spec fn is_credential_error(e: MailError, action: Seq<char>, diagnostic: Seq<char>) -> bool {
    &&& e.code@ == "credential_store_unavailable"@
    &&& e.user_message@ == "无法"@ + action + "邮件密码，请检查系统凭据存储后重试。"@
    &&& e.diagnostic@ == diagnostic
}

/// The SMTP settings (or the password) cannot be used.
pub open spec fn is_configuration_error(e: MailError, diagnostic: Seq<char>) -> bool {
    &&& e.code@ == "smtp_configuration_invalid"@
    &&& e.user_message@ == "邮件设置无法使用，请检查服务器地址和邮箱格式。"@
    &&& e.diagnostic@ == diagnostic
}

/// The SMTP server did not take the message.
pub open spec fn is_delivery_error(e: MailError, diagnostic: Seq<char>) -> bool {
    &&& e.code@ == "smtp_delivery_failed"@
    &&& e.user_message@ == "邮件服务器没有接受测试邮件，请检查网络、端口、加密方式和登录信息。"@
    &&& e.diagnostic@ == diagnostic
}

/// No SMTP password has been saved yet.
pub open spec fn is_missing_password_error(e: MailError) -> bool {
    &&& e.code@ == "smtp_password_missing"@
    &&& e.user_message@ == "尚未保存 SMTP 密码，请填写后先保存设置。"@
    &&& e.diagnostic@ == "credential entry is missing"@
}

impl MailError {
    /// The credential store failed while trying to `action` the password.
    pub fn credential(action: &str, diagnostic: &str) -> (r: Self)
        ensures
            is_credential_error(r, action@, diagnostic@),
    {
        let mut message = owned("无法");
        message.append(action);
        message.append("邮件密码，请检查系统凭据存储后重试。");
        MailError {
            code: owned("credential_store_unavailable"),
            user_message: message,
            diagnostic: owned(diagnostic),
        }
    }

    /// The settings cannot be used.
    pub fn configuration(diagnostic: &str) -> (r: Self)
        ensures
            is_configuration_error(r, diagnostic@),
    {
        MailError {
            code: owned("smtp_configuration_invalid"),
            user_message: owned("邮件设置无法使用，请检查服务器地址和邮箱格式。"),
            diagnostic: owned(diagnostic),
        }
    }

    /// The server refused the message.
    pub fn delivery(diagnostic: &str) -> (r: Self)
        ensures
            is_delivery_error(r, diagnostic@),
    {
        MailError {
            code: owned("smtp_delivery_failed"),
            user_message: owned("邮件服务器没有接受测试邮件，请检查网络、端口、加密方式和登录信息。"),
            diagnostic: owned(diagnostic),
        }
    }

    /// No password has been saved.
    pub fn missing_password() -> (r: Self)
        ensures
            is_missing_password_error(r),
    {
        MailError {
            code: owned("smtp_password_missing"),
            user_message: owned("尚未保存 SMTP 密码，请填写后先保存设置。"),
            diagnostic: owned("credential entry is missing"),
        }
    }
}

// ---------------------------------------------------------------------------
// The SMTP password in the system credential store
// ---------------------------------------------------------------------------
#[verifier::external_type_specification]
#[verifier::external_body]
pub struct ExKeyringEntry(keyring::Entry);

/// How a call into the system credential store failed, with the error's text.
#[derive(Debug)]
pub enum KeyringFailure {
    /// The store holds no password for the entry.
    NoEntry(String),
    /// Any other failure of the platform store.
    Failed(String),
}

/// The text of a credential store failure.
pub open spec fn failure_text(f: KeyringFailure) -> Seq<char> {
    match f {
        KeyringFailure::NoEntry(t) => t@,
        KeyringFailure::Failed(t) => t@,
    }
}

/// Opens the credential entry for a service and account (`keyring::Entry::new`).
/// Whether the platform store can be opened depends on the machine; nothing is
/// stated of the outcome.
#[verifier::external_body]
fn keyring_entry(service: &str, account: &str) -> (r: Result<keyring::Entry, KeyringFailure>) {
    match keyring::Entry::new(service, account) {
        Ok(entry) => Ok(entry),
        Err(e @ keyring::Error::NoEntry) => Err(KeyringFailure::NoEntry(e.to_string())),
        Err(e) => Err(KeyringFailure::Failed(e.to_string())),
    }
}

/// Reads the password of an entry (`keyring::Entry::get_password`). What the
/// platform store holds is outside this library; nothing is stated of it.
#[verifier::external_body]
fn keyring_get(entry: &keyring::Entry) -> (r: Result<String, KeyringFailure>) {
    match entry.get_password() {
        Ok(password) => Ok(password),
        Err(e @ keyring::Error::NoEntry) => Err(KeyringFailure::NoEntry(e.to_string())),
        Err(e) => Err(KeyringFailure::Failed(e.to_string())),
    }
}

/// Writes the password of an entry (`keyring::Entry::set_password`); whether
/// the platform store accepts it is not stated.
#[verifier::external_body]
fn keyring_set(entry: &keyring::Entry, password: &str) -> (r: Result<(), KeyringFailure>) {
    match entry.set_password(password) {
        Ok(()) => Ok(()),
        Err(e @ keyring::Error::NoEntry) => Err(KeyringFailure::NoEntry(e.to_string())),
        Err(e) => Err(KeyringFailure::Failed(e.to_string())),
    }
}

/// Deletes the password of an entry (`keyring::Entry::delete_credential`);
/// whether the platform store succeeds is not stated.
#[verifier::external_body]
fn keyring_delete(entry: &keyring::Entry) -> (r: Result<(), KeyringFailure>) {
    match entry.delete_credential() {
        Ok(()) => Ok(()),
        Err(e @ keyring::Error::NoEntry) => Err(KeyringFailure::NoEntry(e.to_string())),
        Err(e) => Err(KeyringFailure::Failed(e.to_string())),
    }
}

/// What a read of the store answers: the password, no password when the
/// store has no entry, and a credential error otherwise.
pub fn read_outcome(result: Result<String, KeyringFailure>) -> (r: Result<Option<String>, MailError>)
    ensures
        match result {
            Ok(p) => r == Ok::<Option<String>, MailError>(Some(p)),
            Err(KeyringFailure::NoEntry(_)) => r == Ok::<Option<String>, MailError>(None),
            Err(KeyringFailure::Failed(d)) => r matches Err(e) && is_credential_error(e, "读取"@, d@),
        },
{
    match result {
        Ok(p) => Ok(Some(p)),
        Err(KeyringFailure::NoEntry(_)) => Ok(None),
        Err(KeyringFailure::Failed(d)) => Err(MailError::credential("读取", d.as_str())),
    }
}

/// What a write to the store answers: any failure is a credential error.
pub fn write_outcome(result: Result<(), KeyringFailure>) -> (r: Result<(), MailError>)
    ensures
        match result {
            Ok(()) => r is Ok,
            Err(f) => r matches Err(e) && is_credential_error(e, "保存"@, failure_text(f)),
        },
{
    match result {
        Ok(()) => Ok(()),
        Err(KeyringFailure::NoEntry(d)) => Err(MailError::credential("保存", d.as_str())),
        Err(KeyringFailure::Failed(d)) => Err(MailError::credential("保存", d.as_str())),
    }
}

/// What a deletion answers: a missing entry is already deleted.
pub fn delete_outcome(result: Result<(), KeyringFailure>) -> (r: Result<(), MailError>)
    ensures
        match result {
            Ok(()) => r is Ok,
            Err(KeyringFailure::NoEntry(_)) => r is Ok,
            Err(KeyringFailure::Failed(d)) => r matches Err(e) && is_credential_error(e, "删除"@, d@),
        },
{
    match result {
        Ok(()) => Ok(()),
        Err(KeyringFailure::NoEntry(_)) => Ok(()),
        Err(KeyringFailure::Failed(d)) => Err(MailError::credential("删除", d.as_str())),
    }
}

/// Where the SMTP password is kept: the system credential store, or memory
/// (for a session that must not touch the system store).
#[derive(Debug)]
pub enum CredentialStore {
    System,
    Memory(Option<String>),
}

/// The password an in-memory store holds.
pub open spec fn memory_password(store: CredentialStore) -> Option<Seq<char>> {
    match store {
        CredentialStore::Memory(p) => crate::schedule::opt_view(p),
        CredentialStore::System => None,
    }
}

/// What an in-memory store holds after a replacement: an empty password is
/// refused and leaves it as it was.
pub open spec fn stored_after_replace(before: Option<Seq<char>>, password: Seq<char>) -> Option<Seq<char>> {
    if password.len() == 0 {
        before
    } else {
        Some(password)
    }
}

/// What an in-memory store holds after a restore: exactly the earlier value.
pub open spec fn stored_after_restore(before: Option<Seq<char>>, previous: Option<Seq<char>>) -> Option<Seq<char>> {
    previous
}

/// The view of an optional borrowed text.
pub open spec fn opt_str_view(o: Option<&str>) -> Option<Seq<char>> {
    match o {
        Some(s) => Some(s@),
        None => None,
    }
}

/// Opens the application's entry in the system credential store; a failure
/// is the credential error for opening, with the store's own text.
fn open_system_entry() -> (r: Result<keyring::Entry, MailError>)
    ensures
        r matches Err(e) ==> e.code@ == "credential_store_unavailable"@,
        r matches Err(e) ==> e.user_message@ == "无法"@ + "打开"@ + "邮件密码，请检查系统凭据存储后重试。"@,
{
    match keyring_entry("com.shanji.desktop.smtp", "default") {
        Ok(entry) => Ok(entry),
        Err(KeyringFailure::NoEntry(d)) => Err(MailError::credential("打开", d.as_str())),
        Err(KeyringFailure::Failed(d)) => Err(MailError::credential("打开", d.as_str())),
    }
}

/// Sends reminder, digest and test mails with the SMTP settings, reading the
/// password from its credential store.
pub struct MailService {
    credentials: CredentialStore,
}

impl MailService {
    /// The store this service keeps the password in.
    pub closed spec fn store(&self) -> CredentialStore {
        self.credentials
    }

    /// A service backed by the system credential store.
    pub fn new() -> (r: Self)
        ensures
            r.store() is System,
    {
        MailService { credentials: CredentialStore::System }
    }

    /// A service backed by the given store.
    pub fn with_credentials(credentials: CredentialStore) -> (r: Self)
        ensures
            r.store() == credentials,
    {
        MailService { credentials }
    }

    /// The saved password, if any.
    pub fn password(&self) -> (r: Result<Option<String>, MailError>)
        ensures
            self.store() is Memory ==> (r matches Ok(p) && crate::schedule::opt_view(p) == memory_password(self.store())),
            self.store() is System ==> (r matches Err(e) ==> e.code@ == "credential_store_unavailable"@),
    {
        match &self.credentials {
            CredentialStore::Memory(p) => Ok(crate::schedule::copy_opt(p)),
            CredentialStore::System => match open_system_entry() {
                Ok(entry) => read_outcome(keyring_get(&entry)),
                Err(e) => Err(e),
            },
        }
    }

    /// Whether a password has been saved.
    pub fn password_configured(&self) -> (r: Result<bool, MailError>)
        ensures
            self.store() is Memory ==> r == Ok::<bool, MailError>(memory_password(self.store()) is Some),
            self.store() is System ==> (r matches Err(e) ==> e.code@ == "credential_store_unavailable"@),
    {
        match self.password() {
            Ok(p) => Ok(p.is_some()),
            Err(e) => Err(e),
        }
    }

    /// Saves a new password. An empty password is refused and changes nothing.
    pub fn store_password(&mut self, password: &str) -> (r: Result<(), MailError>)
        ensures
            password@.len() == 0 ==> (r matches Err(e) && is_configuration_error(e, "password is empty"@)),
            password@.len() == 0 ==> final(self).store() == old(self).store(),
            old(self).store() is Memory ==> final(self).store() is Memory,
            old(self).store() is Memory ==> memory_password(final(self).store()) == stored_after_replace(
                memory_password(old(self).store()),
                password@,
            ),
            old(self).store() is Memory && password@.len() > 0 ==> r is Ok,
            old(self).store() is System ==> final(self).store() is System,
            old(self).store() is System && password@.len() > 0 ==> (r matches Err(e) ==> e.code@
                == "credential_store_unavailable"@),
    {
        if password.is_empty() {
            return Err(MailError::configuration("password is empty"));
        }
        match &self.credentials {
            CredentialStore::Memory(_) => {
                self.credentials = CredentialStore::Memory(Some(owned(password)));
                Ok(())
            },
            CredentialStore::System => match open_system_entry() {
                Ok(entry) => write_outcome(keyring_set(&entry, password)),
                Err(e) => Err(e),
            },
        }
    }

    /// Puts back the password read before a replacement: the earlier password,
    /// or no password at all.
    pub fn restore_password(&mut self, previous: Option<&str>) -> (r: Result<(), MailError>)
        ensures
            old(self).store() is Memory ==> r is Ok && final(self).store() is Memory,
            old(self).store() is Memory ==> memory_password(final(self).store()) == stored_after_restore(
                memory_password(old(self).store()),
                opt_str_view(previous),
            ),
            old(self).store() is System ==> final(self).store() is System,
            old(self).store() is System ==> (r matches Err(e) ==> e.code@ == "credential_store_unavailable"@),
    {
        match &self.credentials {
            CredentialStore::Memory(_) => {
                let restored = match previous {
                    Some(p) => Some(owned(p)),
                    None => None,
                };
                self.credentials = CredentialStore::Memory(restored);
                Ok(())
            },
            CredentialStore::System => match open_system_entry() {
                Ok(entry) => match previous {
                    Some(p) => write_outcome(keyring_set(&entry, p)),
                    None => delete_outcome(keyring_delete(&entry)),
                },
                Err(e) => Err(e),
            },
        }
    }
}

/// Restoring the password that was read before a replacement brings an
/// in-memory store back to what it held, whatever the replacement was.
pub proof fn lemma_restore_undoes_replacement(before: Option<Seq<char>>, replacement: Seq<char>)
    ensures
        stored_after_restore(stored_after_replace(before, replacement), before) == before,
{
}

// ---------------------------------------------------------------------------
// Preparing a message for the SMTP transport
// ---------------------------------------------------------------------------
/// What `lettre` makes of a mailbox text (`<Mailbox as FromStr>::from_str`):
/// the mailbox as it writes it back, or the text of its parse error.
pub uninterp spec fn lettre_mailbox(text: Seq<char>) -> Result<Seq<char>, Seq<char>>;

/// Parses a mailbox such as `Name <user@example.com>` with `lettre`'s
/// `Mailbox` parser, giving the mailbox's own text or the error's text.
#[verifier::external_body]
fn parse_mailbox(text: &str) -> (r: Result<String, String>)
    ensures
        match r {
            Ok(m) => lettre_mailbox(text@) == Ok::<Seq<char>, Seq<char>>(m@),
            Err(d) => lettre_mailbox(text@) == Err::<Seq<char>, Seq<char>>(d@),
        },
{
    match text.parse::<lettre::message::Mailbox>() {
        Ok(mailbox) => Ok(mailbox.to_string()),
        Err(error) => Err(error.to_string()),
    }
}

/// How the connection to the SMTP server is secured.
#[derive(Debug, Clone, Copy, PartialEq, Eq, Structural)]
pub enum SmtpSecurity {
    /// TLS from the first byte.
    Tls,
    /// A plain connection upgraded with STARTTLS.
    StartTls,
}

/// A message that passed every check and is ready for the SMTP transport.
#[derive(Debug)]
pub struct OutgoingMail {
    pub from: String,
    pub to: String,
    pub subject: String,
    pub text: String,
    pub html: String,
    pub host: String,
    pub port: u16,
    pub security: SmtpSecurity,
    pub username: String,
    pub password: String,
}

/// The security mode a settings text names, if it names one.
pub open spec fn security_of(mode: Seq<char>) -> Option<SmtpSecurity> {
    if mode == "tls"@ {
        Some(SmtpSecurity::Tls)
    } else if mode == "starttls"@ {
        Some(SmtpSecurity::StartTls)
    } else {
        None
    }
}

/// The user name to log in with: the configured one, or the sender address.
pub open spec fn login_name(settings: Settings) -> Seq<char> {
    if settings.smtp_username@.len() == 0 {
        settings.smtp_from@
    } else {
        settings.smtp_username@
    }
}

/// The outcome of preparing a message once a password is known: the sender
/// and the recipient must parse as mailboxes, in that order, and the security
/// mode must be `tls` or `starttls`.
pub open spec fn prepared(
    r: Result<OutgoingMail, MailError>,
    settings: Settings,
    recipient: Seq<char>,
    subject: Seq<char>,
    text: Seq<char>,
    html: Seq<char>,
    password: Seq<char>,
) -> bool {
    match lettre_mailbox(settings.smtp_from@) {
        Err(d) => r matches Err(e) && is_configuration_error(e, d),
        Ok(from) => match lettre_mailbox(recipient) {
            Err(d) => r matches Err(e) && is_configuration_error(e, d),
            Ok(to) => match security_of(settings.smtp_security@) {
                None => r matches Err(e) && is_configuration_error(e, "unsupported SMTP security mode"@),
                Some(security) => r matches Ok(m) && {
                    &&& m.from@ == from
                    &&& m.to@ == to
                    &&& m.subject@ == subject
                    &&& m.text@ == text
                    &&& m.html@ == html
                    &&& m.host@ == settings.smtp_host@
                    &&& m.port == settings.smtp_port
                    &&& m.security == security
                    &&& m.username@ == login_name(settings)
                    &&& m.password@ == password
                },
            },
        },
    }
}

/// The outcome of preparing a message from what the credential store answered:
/// its error, a missing password, or the checks of `prepared`.
pub open spec fn delivery_outcome(
    r: Result<OutgoingMail, MailError>,
    settings: Settings,
    recipient: Seq<char>,
    subject: Seq<char>,
    text: Seq<char>,
    html: Seq<char>,
    password: Result<Option<Seq<char>>, MailError>,
) -> bool {
    match password {
        Err(e) => r == Err::<OutgoingMail, MailError>(e),
        Ok(None) => r matches Err(e) && is_missing_password_error(e),
        Ok(Some(p)) => prepared(r, settings, recipient, subject, text, html, p),
    }
}

/// What a read of the password answered, with the password by its text.
pub open spec fn answer_view(answer: Result<Option<String>, MailError>) -> Result<Option<Seq<char>>, MailError> {
    match answer {
        Ok(p) => Ok(crate::schedule::opt_view(p)),
        Err(e) => Err(e),
    }
}

/// What preparing a message gives for the store of `service`: exactly the
/// outcome for the password an in-memory store holds; for the system store,
/// the outcome for some answer of the store.
pub open spec fn delivery_for_store(
    r: Result<OutgoingMail, MailError>,
    store: CredentialStore,
    settings: Settings,
    recipient: Seq<char>,
    subject: Seq<char>,
    text: Seq<char>,
    html: Seq<char>,
) -> bool {
    match store {
        CredentialStore::Memory(p) => delivery_outcome(
            r,
            settings,
            recipient,
            subject,
            text,
            html,
            Ok::<Option<Seq<char>>, MailError>(crate::schedule::opt_view(p)),
        ),
        CredentialStore::System => exists|answer: Result<Option<Seq<char>>, MailError>|
            #[trigger] delivery_outcome(r, settings, recipient, subject, text, html, answer) && (
            answer matches Err(e) ==> e.code@ == "credential_store_unavailable"@),
    }
}

fn copy_text(s: &String) -> (r: String)
    ensures
        r@ == s@,
{
    owned(s.as_str())
}

/// Checks the addresses and the security mode for a known password and builds
/// the message, given what the mailbox parser made of the sender and the
/// recipient.
pub fn finish_delivery(
    settings: &Settings,
    subject: &str,
    text: &str,
    html: &str,
    password: String,
    from: Result<String, String>,
    to: Result<String, String>,
) -> (r: Result<OutgoingMail, MailError>)
    ensures
        match from {
            Err(d) => r matches Err(e) && is_configuration_error(e, d@),
            Ok(f) => match to {
                Err(d) => r matches Err(e) && is_configuration_error(e, d@),
                Ok(t) => match security_of(settings.smtp_security@) {
                    None => r matches Err(e) && is_configuration_error(e, "unsupported SMTP security mode"@),
                    Some(security) => r matches Ok(m) && {
                        &&& m.from@ == f@
                        &&& m.to@ == t@
                        &&& m.subject@ == subject@
                        &&& m.text@ == text@
                        &&& m.html@ == html@
                        &&& m.host@ == settings.smtp_host@
                        &&& m.port == settings.smtp_port
                        &&& m.security == security
                        &&& m.username@ == login_name(*settings)
                        &&& m.password@ == password@
                    },
                },
            },
        },
{
    let from = match from {
        Ok(f) => f,
        Err(d) => return Err(MailError::configuration(d.as_str())),
    };
    let to = match to {
        Ok(t) => t,
        Err(d) => return Err(MailError::configuration(d.as_str())),
    };
    let security = if str_eq(settings.smtp_security.as_str(), "tls") {
        SmtpSecurity::Tls
    } else if str_eq(settings.smtp_security.as_str(), "starttls") {
        SmtpSecurity::StartTls
    } else {
        return Err(MailError::configuration("unsupported SMTP security mode"));
    };
    let username = if settings.smtp_username.as_str().is_empty() {
        copy_text(&settings.smtp_from)
    } else {
        copy_text(&settings.smtp_username)
    };
    Ok(OutgoingMail {
        from,
        to,
        subject: owned(subject),
        text: owned(text),
        html: owned(html),
        host: copy_text(&settings.smtp_host),
        port: settings.smtp_port,
        security,
        username,
        password,
    })
}

impl MailService {
    /// Reads the password and checks the settings, giving the message ready
    /// for the SMTP transport or the first reason it cannot be sent.
    fn prepare_message(
        &self,
        settings: &Settings,
        recipient: &str,
        subject: &str,
        text: &str,
        html: &str,
    ) -> (r: Result<OutgoingMail, MailError>)
        ensures
            delivery_for_store(r, self.store(), *settings, recipient@, subject@, text@, html@),
    {
        let answer = self.password();
        let ghost seen = answer;
        let r = match answer {
            Err(e) => Err(e),
            Ok(None) => Err(MailError::missing_password()),
            Ok(Some(p)) => {
                let from = parse_mailbox(settings.smtp_from.as_str());
                let to = parse_mailbox(recipient);
                finish_delivery(settings, subject, text, html, p, from, to)
            },
        };
        proof {
            assert(delivery_outcome(r, *settings, recipient@, subject@, text@, html@, answer_view(seen)));
        }
        r
    }
}

// ---------------------------------------------------------------------------
// Reminder, digest and test mails
// ---------------------------------------------------------------------------
/// The subject of the connection test mail.
pub const TEST_SUBJECT: &'static str = "闪记邮件通知测试";

/// The plain-text body of the connection test mail.
pub const TEST_TEXT: &'static str = "这是一封由你主动发送的测试邮件。收到它说明当前 SMTP 设置可以正常投递。";

/// The subject of a reminder mail.
pub open spec fn reminder_subject(n: DueNotification) -> Seq<char> {
    "闪记提醒："@ + n.title@
}

/// The plain-text body of a reminder mail.
pub open spec fn reminder_text(n: DueNotification) -> Seq<char> {
    n.title@ + "\n\n类型："@ + mail_kind_label(crate::schedule::opt_view(n.event_kind)) + "\n到期时间："@
        + n.due_local_date@ + seq![' '] + n.due_local_time@ + "\n\n请在闪记中完成、稍后提醒或确认已看到。"@
}

/// The HTML body of a reminder mail.
pub open spec fn reminder_body(n: DueNotification) -> Seq<char> {
    reminder_html_spec(
        n.title@,
        mail_kind_label(crate::schedule::opt_view(n.event_kind)),
        n.due_local_date@,
        n.due_local_time@,
    )
}

/// The subject of the daily digest.
pub open spec fn digest_subject(count: nat) -> Seq<char> {
    "闪记每日摘要："@ + decimal_seq(count) + " 项待处理"@
}

/// One line of the plain-text digest.
pub open spec fn digest_line(n: DueNotification) -> Seq<char> {
    "- "@ + n.title@ + "（"@ + n.due_local_date@ + seq![' '] + n.due_local_time@ + "）\n"@
}

/// The lines of the plain-text digest, one per reminder, in order.
pub open spec fn digest_lines(ns: Seq<DueNotification>) -> Seq<char>
    decreases ns.len(),
{
    if ns.len() == 0 {
        Seq::empty()
    } else {
        digest_lines(ns.drop_last()) + digest_line(ns.last())
    }
}

/// The plain-text body of the daily digest.
pub open spec fn digest_text(local_date: Seq<char>, ns: Seq<DueNotification>) -> Seq<char> {
    local_date + " 的闪记提醒摘要\n\n"@ + digest_lines(ns) + "\n请回到闪记完成、调整或暂停事项。"@
}

impl MailService {
    /// Prepares the reminder mail for one due reminder.
    pub fn send_reminder(&self, settings: &Settings, recipient: &str, notification: &DueNotification) -> (r:
        Result<OutgoingMail, MailError>)
        ensures
            delivery_for_store(
                r,
                self.store(),
                *settings,
                recipient@,
                reminder_subject(*notification),
                reminder_text(*notification),
                reminder_body(*notification),
            ),
    {
        let mut subject = owned("闪记提醒：");
        subject.append(notification.title.as_str());
        let kind = event_kind_label(&notification.event_kind);
        let mut text = owned(notification.title.as_str());
        text.append("\n\n类型：");
        text.append(kind);
        text.append("\n到期时间：");
        text.append(notification.due_local_date.as_str());
        text.append(" ");
        text.append(notification.due_local_time.as_str());
        text.append("\n\n请在闪记中完成、稍后提醒或确认已看到。");
        proof {
            reveal_strlit(" ");
        }
        let html = reminder_html(
            notification.title.as_str(),
            kind,
            notification.due_local_date.as_str(),
            notification.due_local_time.as_str(),
        );
        assert(subject@ == reminder_subject(*notification));
        assert(text@ =~= reminder_text(*notification));
        assert(html@ == reminder_body(*notification));
        self.prepare_message(settings, recipient, subject.as_str(), text.as_str(), html.as_str())
    }

    /// Prepares the daily digest listing the given reminders.
    pub fn send_digest(
        &self,
        settings: &Settings,
        recipient: &str,
        local_date: &str,
        notifications: &[DueNotification],
    ) -> (r: Result<OutgoingMail, MailError>)
        ensures
            delivery_for_store(
                r,
                self.store(),
                *settings,
                recipient@,
                digest_subject(notifications@.len()),
                digest_text(local_date@, notifications@),
                digest_html_spec(local_date@, notifications@),
            ),
    {
        let count = u64_to_string(notifications.len() as u64);
        let mut subject = owned("闪记每日摘要：");
        subject.append(count.as_str());
        subject.append(" 项待处理");
        let mut lines = String::new();
        let mut i: usize = 0;
        while i < notifications.len()
            invariant
                i <= notifications@.len(),
                lines@ == digest_lines(notifications@.subrange(0, i as int)),
            decreases notifications@.len() - i,
        {
            let n = &notifications[i];
            lines.append("- ");
            lines.append(n.title.as_str());
            lines.append("（");
            lines.append(n.due_local_date.as_str());
            lines.append(" ");
            lines.append(n.due_local_time.as_str());
            lines.append("）\n");
            proof {
                reveal_strlit(" ");
                let next = notifications@.subrange(0, i as int + 1);
                assert(next.drop_last() =~= notifications@.subrange(0, i as int));
                assert(next.last() == notifications@[i as int]);
            }
            i = i + 1;
        }
        assert(notifications@.subrange(0, notifications@.len() as int) =~= notifications@);
        let mut text = owned(local_date);
        text.append(" 的闪记提醒摘要\n\n");
        text.append(lines.as_str());
        text.append("\n请回到闪记完成、调整或暂停事项。");
        let html = digest_html(local_date, notifications);
        self.prepare_message(settings, recipient, subject.as_str(), text.as_str(), html.as_str())
    }

    /// Prepares the connection test mail, addressed to the configured recipient.
    pub fn send_test(&self, settings: &Settings) -> (r: Result<OutgoingMail, MailError>)
        ensures
            delivery_for_store(r, self.store(), *settings, settings.smtp_to@, TEST_SUBJECT@, TEST_TEXT@, TEST_HTML@),
    {
        let html = test_html();
        self.prepare_message(settings, settings.smtp_to.as_str(), TEST_SUBJECT, TEST_TEXT, html.as_str())
    }
}

} // verus!
