//! Items, settings and the rules that check what the user enters.
use vstd::prelude::*;

use crate::clock::{
    chrono_add_days, chrono_parse_hm, chrono_rfc3339_seconds, chrono_weekday, date_add_days,
    date_tuple, deep_date, inner_date, instant_ok, spare_date, add_months, add_months_spec, local_add_minutes, lookup_local, parse_hm, parse_rfc3339,
    schedulable, supported_date, supported_local, timestamp_in_range, to_local, weekday_number,
    LocalDate, LocalDateTime, LocalLookup, DAY_SECONDS, MAX_TIMESTAMP, MIN_TIMESTAMP,
};
use crate::error::{is_validation, validation, AppError, AppResult};
use crate::text::{
    ascii_lower, chars_of, concat, contains_char, owned, str_eq, string_from_chars, to_ascii_lowercase, trim,
    trim_chars, trim_seq,
};

verus! {

/// Where the current time comes from.
pub trait Clock {
    fn now_utc(&self) -> i64;
}

/// The machine's clock.
#[derive(Debug, Clone, Copy, Default)]
pub struct SystemClock;

/// The current instant in whole seconds (`Utc::now`); it lies in the
/// supported range.
#[verifier::external_body]
fn system_now() -> (r: i64)
    ensures
        instant_ok(r as int),
{
    chrono::Utc::now().timestamp()
}

impl Clock for SystemClock {
    /// The machine's current instant, which lies in the supported range.
    fn now_utc(&self) -> (r: i64)
        ensures
            instant_ok(r as int),
    {
        system_now()
    }
}

/// The user's settings.
#[derive(Debug, Clone)]
pub struct Settings {
    pub default_due_time: String,
    pub repeat_default_times: Vec<String>,
    pub workdays: Vec<u32>,
    pub overtime_interval_minutes: u32,
    pub quiet_hours_enabled: bool,
    pub quiet_start: String,
    pub quiet_end: String,
    pub global_shortcut: String,
    pub notifications_enabled: bool,
    pub autostart_enabled: bool,
    pub persistent_notifications_enabled: bool,
    pub overlay_reminders_enabled: bool,
    pub repeat_unacknowledged_enabled: bool,
    pub unacknowledged_repeat_minutes: u32,
    pub smtp_enabled: bool,
    pub smtp_host: String,
    pub smtp_port: u16,
    pub smtp_security: String,
    pub smtp_from: String,
    pub smtp_to: String,
    pub smtp_username: String,
    pub smtp_repeat_must_complete: bool,
    pub event_kind_defaults: Vec<EventKindDefault>,
}

/// The reminder plan an event kind starts with.
#[derive(Debug, Clone)]
pub struct EventKindDefault {
    pub event_kind: String,
    pub reminder_plan: String,
}

// ---------------------------------------------------------------------------
// Fixed vocabularies
// ---------------------------------------------------------------------------
/// The seven event kinds, in their display order.
pub open spec fn event_kinds() -> Seq<Seq<char>> {
    seq![
        "ORDINARY"@,
        "ONE_TIME"@,
        "TODAY_MUST"@,
        "WARNING"@,
        "CONTINUOUS"@,
        "MONTHLY"@,
        "YEARLY"@,
    ]
}

pub open spec fn is_event_kind_spec(s: Seq<char>) -> bool {
    s == "ORDINARY"@ || s == "ONE_TIME"@ || s == "TODAY_MUST"@ || s == "WARNING"@ || s
        == "CONTINUOUS"@ || s == "MONTHLY"@ || s == "YEARLY"@
}

pub open spec fn is_reminder_plan_spec(s: Seq<char>) -> bool {
    s == "REPEAT"@ || s == "EMPHASIS"@ || s == "ONCE"@ || s == "FORCE"@ || s == "CUSTOM"@
}

pub open spec fn is_repeat_time_mode_spec(s: Seq<char>) -> bool {
    s == "DEFAULT"@ || s == "SPECIFIED"@
}

pub open spec fn is_schedule_unit_spec(s: Seq<char>) -> bool {
    s == "DAY"@ || s == "WEEK"@ || s == "MONTH"@ || s == "YEAR"@
}

/// Whether `s` names one of the seven event kinds.
pub fn is_event_kind(s: &str) -> (r: bool)
    ensures
        r == is_event_kind_spec(s@),
{
    str_eq(s, "ORDINARY") || str_eq(s, "ONE_TIME") || str_eq(s, "TODAY_MUST") || str_eq(
        s,
        "WARNING",
    ) || str_eq(s, "CONTINUOUS") || str_eq(s, "MONTHLY") || str_eq(s, "YEARLY")
}

/// Whether `s` names one of the five reminder plans.
pub fn is_reminder_plan(s: &str) -> (r: bool)
    ensures
        r == is_reminder_plan_spec(s@),
{
    str_eq(s, "REPEAT") || str_eq(s, "EMPHASIS") || str_eq(s, "ONCE") || str_eq(s, "FORCE")
        || str_eq(s, "CUSTOM")
}

/// Whether `s` names a repeat time mode.
pub fn is_repeat_time_mode(s: &str) -> (r: bool)
    ensures
        r == is_repeat_time_mode_spec(s@),
{
    str_eq(s, "DEFAULT") || str_eq(s, "SPECIFIED")
}

/// Whether `s` names a calendar unit for lead times and cadences.
pub fn is_schedule_unit(s: &str) -> (r: bool)
    ensures
        r == is_schedule_unit_spec(s@),
{
    str_eq(s, "DAY") || str_eq(s, "WEEK") || str_eq(s, "MONTH") || str_eq(s, "YEAR")
}

/// The factory default reminder plan of each event kind.
pub open spec fn default_plan_pairs() -> Seq<(Seq<char>, Seq<char>)> {
    seq![
        ("ORDINARY"@, "REPEAT"@),
        ("ONE_TIME"@, "ONCE"@),
        ("TODAY_MUST"@, "EMPHASIS"@),
        ("WARNING"@, "REPEAT"@),
        ("CONTINUOUS"@, "CUSTOM"@),
        ("MONTHLY"@, "ONCE"@),
        ("YEARLY"@, "ONCE"@),
    ]
}

fn kind_default(kind: &str, plan: &str) -> (r: EventKindDefault)
    ensures
        r.event_kind@ == kind@,
        r.reminder_plan@ == plan@,
{
    EventKindDefault { event_kind: owned(kind), reminder_plan: owned(plan) }
}

/// The factory default reminder plan of each event kind, in display order.
pub fn default_event_kind_defaults() -> (r: Vec<EventKindDefault>)
    ensures
        r@.len() == 7,
        forall|i: int|
            0 <= i < 7 ==> (#[trigger] r@[i]).event_kind@ == default_plan_pairs()[i].0
                && r@[i].reminder_plan@ == default_plan_pairs()[i].1,
{
    let mut r: Vec<EventKindDefault> = Vec::new();
    r.push(kind_default("ORDINARY", "REPEAT"));
    r.push(kind_default("ONE_TIME", "ONCE"));
    r.push(kind_default("TODAY_MUST", "EMPHASIS"));
    r.push(kind_default("WARNING", "REPEAT"));
    r.push(kind_default("CONTINUOUS", "CUSTOM"));
    r.push(kind_default("MONTHLY", "ONCE"));
    r.push(kind_default("YEARLY", "ONCE"));
    r
}

// ---------------------------------------------------------------------------
// Times of day
// ---------------------------------------------------------------------------
/// The message for a time that cannot be read.
pub open spec fn bad_time_message(value: Seq<char>) -> Seq<char> {
    "时间格式无效："@ + value
}

/// Reads an `HH:MM` time of day, as seconds since midnight.
pub fn parse_time(value: &str) -> (r: AppResult<u32>)
    ensures
        match r {
            Ok(t) => chrono_parse_hm(value@) == Some(t) && t < DAY_SECONDS && t % 60 == 0,
            Err(e) => chrono_parse_hm(value@) is None && is_validation(
                e,
                bad_time_message(value@),
            ),
        },
{
    match parse_hm(value) {
        Some(t) => Ok(t),
        None => Err(AppError::Validation(concat("时间格式无效：", value))),
    }
}

/// All the texts parse as times.
pub open spec fn all_parse(values: Seq<String>) -> bool {
    forall|i: int| 0 <= i < values.len() ==> (chrono_parse_hm(#[trigger] values[i]@) is Some)
}

/// Index of the first text that does not parse as a time.
pub open spec fn first_unparsed(values: Seq<String>) -> int
    decreases values.len(),
{
    if values.len() == 0 {
        0
    } else if chrono_parse_hm(values[0]@) is None {
        0
    } else {
        1 + first_unparsed(values.drop_first())
    }
}

/// No two of the texts are equal.
pub open spec fn all_distinct(values: Seq<String>) -> bool {
    forall|i: int, j: int| 0 <= i < j < values.len() ==> values[i]@ != values[j]@
}

/// The complaint about a list of repeat times, if any (checked in order:
/// count, then each time's format, then duplicates).
pub open spec fn repeat_times_problem(values: Seq<String>, minimum: int, maximum: int) -> Option<
    Seq<char>,
> {
    if values.len() < minimum || values.len() > maximum {
        Some(
            if minimum == maximum {
                "请设置两个重复提醒时间"@
            } else {
                "重复提醒只能设置一至两个时间"@
            },
        )
    } else if !all_parse(values) {
        Some(bad_time_message(values[first_unparsed(values)]@))
    } else if !all_distinct(values) {
        Some("两个重复提醒时间不能相同"@)
    } else {
        None
    }
}

/// An `AppResult<()>` that is `Ok` exactly when there is no problem and
/// otherwise the validation error with the problem's message.
pub open spec fn answers(r: AppResult<()>, problem: Option<Seq<char>>) -> bool {
    match problem {
        None => r is Ok,
        Some(m) => r matches Err(e) && is_validation(e, m),
    }
}

proof fn lemma_first_unparsed(values: Seq<String>, i: int)
    requires
        0 <= i < values.len(),
        forall|k: int| 0 <= k < i ==> (chrono_parse_hm(#[trigger] values[k]@) is Some),
        chrono_parse_hm(values[i]@) is None,
    ensures
        first_unparsed(values) == i,
    decreases i,
{
    if i > 0 {
        assert(chrono_parse_hm(values[0]@) is Some);
        let rest = values.drop_first();
        assert forall|k: int| 0 <= k < i - 1 implies (chrono_parse_hm(#[trigger] rest[k]@) is Some) by {
            assert(rest[k] == values[k + 1]);
        }
        assert(rest[i - 1] == values[i]);
        lemma_first_unparsed(rest, i - 1);
    }
}

/// Checks a list of repeat times: between `minimum` and `maximum` entries,
/// each an `HH:MM` time, no two the same.
pub fn validate_repeat_times(values: &[String], minimum: usize, maximum: usize) -> (r: AppResult<
    (),
>)
    ensures
        answers(r, repeat_times_problem(values@, minimum as int, maximum as int)),
{
    if values.len() < minimum || values.len() > maximum {
        return Err(
            validation(
                if minimum == maximum {
                    "请设置两个重复提醒时间"
                } else {
                    "重复提醒只能设置一至两个时间"
                },
            ),
        );
    }
    let mut i: usize = 0;
    while i < values.len()
        invariant
            i <= values.len(),
            minimum <= values.len() <= maximum,
            forall|k: int| 0 <= k < i ==> (chrono_parse_hm(#[trigger] values@[k]@) is Some),
        decreases values.len() - i,
    {
        match parse_time(values[i].as_str()) {
            Ok(_) => {},
            Err(e) => {
                proof {
                    lemma_first_unparsed(values@, i as int);
                    assert(!(chrono_parse_hm(values@[i as int]@) is Some));
                    assert(!all_parse(values@));
                }
                return Err(e);
            },
        }
        i = i + 1;
    }
    let mut a: usize = 0;
    while a < values.len()
        invariant
            a <= values.len(),
            minimum <= values.len() <= maximum,
            all_parse(values@),
            forall|x: int, y: int| 0 <= x < a && x < y < values.len() ==> values@[x]@ != values@[y]@,
        decreases values.len() - a,
    {
        let mut b: usize = a + 1;
        while b < values.len()
            invariant
                a < values.len(),
                a + 1 <= b <= values.len(),
                minimum <= values.len() <= maximum,
                all_parse(values@),
                forall|x: int, y: int|
                    0 <= x < a && x < y < values.len() ==> values@[x]@ != values@[y]@,
                forall|y: int| a < y < b ==> values@[a as int]@ != values@[y]@,
            decreases values.len() - b,
        {
            if str_eq(values[a].as_str(), values[b].as_str()) {
                assert(!all_distinct(values@));
                return Err(validation("两个重复提醒时间不能相同"));
            }
            b = b + 1;
        }
        a = a + 1;
    }
    Ok(())
}

// ---------------------------------------------------------------------------
// Colours and names
// ---------------------------------------------------------------------------
pub open spec fn is_ascii_hex_digit(c: char) -> bool {
    ('0' <= c && c <= '9') || ('a' <= c && c <= 'f') || ('A' <= c && c <= 'F')
}

/// `#` followed by exactly six hexadecimal digits.
pub open spec fn is_hex_color_spec(s: Seq<char>) -> bool {
    s.len() == 7 && s[0] == '#' && forall|i: int| 1 <= i < 7 ==> is_ascii_hex_digit(#[trigger] s[i])
}

/// Whether `value` is a colour of the form `#RRGGBB`.
pub fn is_hex_color(value: &str) -> (r: bool)
    ensures
        r == is_hex_color_spec(value@),
{
    let chars = chars_of(value);
    if chars.len() != 7 || chars[0] != '#' {
        return false;
    }
    let mut i: usize = 1;
    while i < 7
        invariant
            1 <= i <= 7,
            chars@ == value@,
            chars@.len() == 7,
            forall|k: int| 1 <= k < i ==> is_ascii_hex_digit(#[trigger] chars@[k]),
        decreases 7 - i,
    {
        let c = chars[i];
        if !(('0' <= c && c <= '9') || ('a' <= c && c <= 'f') || ('A' <= c && c <= 'F')) {
            return false;
        }
        i = i + 1;
    }
    true
}

/// A name and colour for a new or changed type or tag.
#[derive(Debug, Clone)]
pub struct TaxonomyInput {
    pub name: String,
    pub color: String,
}

/// A user-defined type (single choice per item).
#[derive(Debug, Clone)]
pub struct Category {
    pub id: String,
    pub name: String,
    pub color: String,
}

/// A user-defined coloured tag (several per item).
#[derive(Debug, Clone)]
pub struct Tag {
    pub id: String,
    pub name: String,
    pub color: String,
}

impl TaxonomyInput {
    /// The complaint about this name and colour, if any.
    pub open spec fn problem(&self, label: Seq<char>) -> Option<Seq<char>> {
        let length = trim_seq(self.name@).len();
        if !(1 <= length <= 30) {
            Some(label + "名称需要 1–30 个字符"@)
        } else if !is_hex_color_spec(self.color@) {
            Some("请选择有效的"@ + label + "颜色"@)
        } else {
            None
        }
    }

    /// Checks the name (1–30 characters once trimmed) and the colour.
    /// `label` names the kind of entry in the messages.
    pub fn validate(&self, label: &str) -> (r: AppResult<()>)
        ensures
            answers(r, self.problem(label@)),
    {
        let name = trim(self.name.as_str());
        let length = chars_of(name.as_str()).len();
        if !(1 <= length && length <= 30) {
            return Err(AppError::Validation(concat(label, "名称需要 1–30 个字符")));
        }
        if !is_hex_color(self.color.as_str()) {
            let first = concat("请选择有效的", label);
            let message = concat(first.as_str(), "颜色");
            assert(message@ =~= "请选择有效的"@ + label@ + "颜色"@);
            return Err(AppError::Validation(message));
        }
        Ok(())
    }
}


// ---------------------------------------------------------------------------
// Global shortcut
// ---------------------------------------------------------------------------
/// How the shortcut parser of the desktop shell read a shortcut text.
#[derive(Debug, Clone, Copy, PartialEq, Eq)]
pub enum ShortcutParse {
    /// The text is not a shortcut.
    Invalid,
    /// The text is a shortcut; whether it holds at least one modifier key.
    Parsed { has_modifiers: bool },
}

/// `s` cut at every `+` (`str::split('+')`): always at least one piece.
pub open spec fn split_plus(s: Seq<char>) -> Seq<Seq<char>>
    decreases s.len(),
{
    if s.len() == 0 {
        seq![Seq::<char>::empty()]
    } else {
        let rest = split_plus(s.drop_last());
        if s.last() == '+' {
            rest.push(Seq::<char>::empty())
        } else {
            rest.update(rest.len() - 1, rest.last().push(s.last()))
        }
    }
}

proof fn lemma_split_plus_nonempty(s: Seq<char>)
    ensures
        split_plus(s).len() >= 1,
    decreases s.len(),
{
    if s.len() > 0 {
        lemma_split_plus_nonempty(s.drop_last());
    }
}

/// A modifier key name, in lower case.
pub open spec fn is_modifier_name(t: Seq<char>) -> bool {
    t == "alt"@ || t == "option"@ || t == "ctrl"@ || t == "control"@ || t == "shift"@ || t
        == "command"@ || t == "cmd"@ || t == "super"@ || t == "meta"@ || t
        == "commandorcontrol"@
}

/// The piece, trimmed and lowered, names a modifier key.
pub open spec fn token_is_modifier(t: Seq<char>) -> bool {
    is_modifier_name(trim_seq(t).map_values(|c: char| ascii_lower(c)))
}

/// Every `+`-separated piece of `s` names a modifier key.
pub open spec fn only_modifiers(s: Seq<char>) -> bool {
    forall|i: int|
        0 <= i < split_plus(s).len() ==> token_is_modifier(#[trigger] split_plus(s)[i])
}

/// The complaint about a shortcut text, if any.
pub open spec fn shortcut_problem(value: Seq<char>, parsed: ShortcutParse) -> Option<Seq<char>> {
    let v = trim_seq(value);
    if v.len() == 0 {
        Some("快捷键不能为空，请输入类似 Ctrl+Shift+Space 的组合。"@)
    } else if only_modifiers(v) {
        Some("快捷键必须包含一个普通按键，例如 Space、M 或 F8。"@)
    } else {
        match parsed {
            ShortcutParse::Invalid => Some("快捷键格式无效，请输入类似 Ctrl+Shift+Space 的组合。"@),
            ShortcutParse::Parsed { has_modifiers } => if !has_modifiers {
                Some("快捷键必须同时包含修饰键和一个普通按键。"@)
            } else {
                None
            },
        }
    }
}

fn token_modifier(token: &Vec<char>) -> (r: bool)
    ensures
        r == token_is_modifier(token@),
{
    let trimmed = trim_chars(token);
    let lowered = to_ascii_lowercase(&trimmed);
    let t = string_from_chars(&lowered);
    let t = t.as_str();
    str_eq(t, "alt") || str_eq(t, "option") || str_eq(t, "ctrl") || str_eq(t, "control")
        || str_eq(t, "shift") || str_eq(t, "command") || str_eq(t, "cmd") || str_eq(t, "super")
        || str_eq(t, "meta") || str_eq(t, "commandorcontrol")
}

/// Whether every `+`-separated piece of `s` names a modifier key.
fn all_tokens_modifiers(s: &Vec<char>) -> (r: bool)
    ensures
        r == only_modifiers(s@),
{
    let mut current: Vec<char> = Vec::new();
    let mut ok = true;
    let mut i: usize = 0;
    proof {
        lemma_split_plus_nonempty(s@.subrange(0, 0));
        assert(s@.subrange(0, 0) =~= Seq::<char>::empty());
    }
    while i < s.len()
        invariant
            i <= s.len(),
            split_plus(s@.subrange(0, i as int)).len() >= 1,
            current@ == split_plus(s@.subrange(0, i as int)).last(),
            ok == (forall|k: int|
                0 <= k < split_plus(s@.subrange(0, i as int)).len() - 1 ==> token_is_modifier(
                    #[trigger] split_plus(s@.subrange(0, i as int))[k],
                )),
        decreases s.len() - i,
    {
        let ghost prev = split_plus(s@.subrange(0, i as int));
        let c = s[i];
        proof {
            let next = s@.subrange(0, i + 1);
            assert(next.drop_last() =~= s@.subrange(0, i as int));
            assert(next.last() == c);
        }
        if c == '+' {
            let m = token_modifier(&current);
            proof {
                let next = split_plus(s@.subrange(0, i + 1));
                assert(next == prev.push(Seq::<char>::empty()));
                assert((ok && m) == (forall|k: int|
                    0 <= k < next.len() - 1 ==> token_is_modifier(#[trigger] next[k]))) by {
                    if ok && m {
                        assert forall|k: int| 0 <= k < next.len() - 1 implies token_is_modifier(
                            #[trigger] next[k],
                        ) by {
                            if k < prev.len() - 1 {
                                assert(next[k] == prev[k]);
                            } else {
                                assert(next[k] == prev.last());
                            }
                        }
                    }
                    if !ok {
                        let k = choose|k: int|
                            0 <= k < prev.len() - 1 && !token_is_modifier(#[trigger] prev[k]);
                        assert(next[k] == prev[k]);
                    }
                    if !m {
                        assert(next[prev.len() - 1] == prev.last());
                    }
                }
            }
            ok = ok && m;
            current = Vec::new();
            proof {
                let next = split_plus(s@.subrange(0, i + 1));
                assert(next == prev.push(Seq::<char>::empty()));
                assert forall|k: int| 0 <= k < next.len() - 1 implies #[trigger] next[k] == prev[k] by {}
                assert(current@ =~= next.last());
            }
        } else {
            current.push(c);
            proof {
                let next = split_plus(s@.subrange(0, i + 1));
                assert(next == prev.update(prev.len() - 1, prev.last().push(c)));
                assert forall|k: int| 0 <= k < next.len() - 1 implies #[trigger] next[k] == prev[k] by {}
                assert(ok == (forall|k: int|
                    0 <= k < next.len() - 1 ==> token_is_modifier(#[trigger] next[k]))) by {
                    if !ok {
                        let k = choose|k: int|
                            0 <= k < prev.len() - 1 && !token_is_modifier(#[trigger] prev[k]);
                        assert(next[k] == prev[k]);
                    }
                }
            }
        }
        i = i + 1;
    }
    assert(s@.subrange(0, s@.len() as int) =~= s@);
    let last = token_modifier(&current);
    ok && last
}

/// Checks a global shortcut text.  `parsed` is what the desktop shell's
/// shortcut parser made of the trimmed text.
pub fn validate_global_shortcut(value: &str, parsed: ShortcutParse) -> (r: AppResult<()>)
    ensures
        answers(r, shortcut_problem(value@, parsed)),
{
    let chars = chars_of(value);
    let v = trim_chars(&chars);
    if v.len() == 0 {
        return Err(validation("快捷键不能为空，请输入类似 Ctrl+Shift+Space 的组合。"));
    }
    if all_tokens_modifiers(&v) {
        return Err(validation("快捷键必须包含一个普通按键，例如 Space、M 或 F8。"));
    }
    match parsed {
        ShortcutParse::Invalid => Err(
            validation("快捷键格式无效，请输入类似 Ctrl+Shift+Space 的组合。"),
        ),
        ShortcutParse::Parsed { has_modifiers } => {
            if !has_modifiers {
                Err(validation("快捷键必须同时包含修饰键和一个普通按键。"))
            } else {
                Ok(())
            }
        },
    }
}


// ---------------------------------------------------------------------------
// Event configuration
// ---------------------------------------------------------------------------
/// How an item's event kind and reminder plan were chosen in a form.
#[derive(Debug, Clone, Default)]
pub struct EventConfigurationInput {
    pub kind: Option<String>,
    pub reminder_plan: Option<String>,
    pub important: bool,
    pub start_at: Option<String>,
    pub end_at: Option<String>,
    pub target_at: Option<String>,
    pub lead_value: Option<u32>,
    pub lead_unit: Option<String>,
    pub cadence_value: Option<u32>,
    pub cadence_unit: Option<String>,
    pub emphasis_max_per_day: Option<u32>,
    pub repeat_time_mode: Option<String>,
    pub repeat_times: Vec<String>,
}

/// The optional text is present and equal to `lit`.
pub open spec fn opt_is(o: Option<String>, lit: Seq<char>) -> bool {
    o matches Some(x) && x@ == lit
}

/// The optional text is absent or reads as an RFC 3339 instant.
pub open spec fn opt_time_ok(o: Option<String>) -> bool {
    match o {
        None => true,
        Some(x) => chrono_rfc3339_seconds(x@) is Some,
    }
}

/// The instant an optional text reads as, in whole seconds and the
/// nanoseconds past them (only meaningful when it reads).
pub open spec fn opt_time(o: Option<String>) -> Option<(i64, u32)> {
    match o {
        None => None,
        Some(x) => crate::clock::chrono_rfc3339_instant(x@),
    }
}

/// Instant `a` comes after instant `b`, both given as whole seconds and the
/// nanoseconds past them.
pub open spec fn instant_after(a: (i64, u32), b: (i64, u32)) -> bool {
    a.0 > b.0 || (a.0 == b.0 && a.1 > b.1)
}

impl EventConfigurationInput {
    /// The complaint about this configuration, if any, in the order the
    /// checks are made.
    pub open spec fn problem(&self) -> Option<Seq<char>> {
        if self.kind matches Some(k) && !is_event_kind_spec(k@) {
            Some("请选择有效的事件类型"@)
        } else if self.reminder_plan matches Some(p) && !is_reminder_plan_spec(p@) {
            Some("请选择有效的提醒方案"@)
        } else if self.repeat_time_mode matches Some(m) && !is_repeat_time_mode_spec(m@) {
            Some("请选择有效的重复时间方式"@)
        } else if self.repeat_times@.len() > 0 && repeat_times_problem(self.repeat_times@, 1, 2) is Some {
            repeat_times_problem(self.repeat_times@, 1, 2)
        } else if opt_is(self.reminder_plan, "REPEAT"@) && opt_is(self.repeat_time_mode, "DEFAULT"@)
            && self.repeat_times@.len() > 0 && self.repeat_times@.len() != 2 {
            Some("默认重复提醒需要两个时间"@)
        } else if opt_is(self.reminder_plan, "REPEAT"@) && opt_is(
            self.repeat_time_mode,
            "SPECIFIED"@,
        ) && self.repeat_times@.len() > 1 {
            Some("指定重复提醒只能设置一个时间"@)
        } else if self.lead_value == Some(0u32) || self.cadence_value == Some(0u32) {
            Some("提醒周期必须大于 0"@)
        } else if self.emphasis_max_per_day matches Some(v) && !(1 <= v <= 96) {
            Some("每日强调提醒次数必须在 1–96 次之间"@)
        } else if self.lead_unit matches Some(u) && !is_schedule_unit_spec(u@) {
            Some("请选择有效的预警单位"@)
        } else if self.cadence_unit matches Some(u) && !is_schedule_unit_spec(u@) {
            Some("请选择有效的提醒周期单位"@)
        } else if !opt_time_ok(self.start_at) || !opt_time_ok(self.end_at) || !opt_time_ok(
            self.target_at,
        ) {
            Some("事件时间格式无效"@)
        } else if opt_is(self.kind, "WARNING"@) && (self.target_at is None || self.lead_value is None
            || self.lead_unit is None) {
            Some("预警事件需要目标时间和提前量"@)
        } else if opt_is(self.kind, "CONTINUOUS"@) && (self.start_at is None || self.end_at is None
            || self.cadence_value is None || self.cadence_unit is None) {
            Some("持续事件需要开始时间、结束时间和提醒周期"@)
        } else if opt_is(self.reminder_plan, "CUSTOM"@) && (self.cadence_value is None
            || self.cadence_unit is None) {
            Some("自定义提醒需要提醒周期"@)
        } else if self.start_at is Some && self.end_at is Some && instant_after(
            opt_time(self.start_at)->0,
            opt_time(self.end_at)->0,
        ) {
            Some("结束时间不能早于开始时间"@)
        } else {
            None
        }
    }

    /// Checks the configuration.
    pub fn validate(&self) -> (r: AppResult<()>)
        ensures
            answers(r, self.problem()),
    {
        if let Some(kind) = &self.kind {
            if !is_event_kind(kind.as_str()) {
                return Err(validation("请选择有效的事件类型"));
            }
        }
        if let Some(plan) = &self.reminder_plan {
            if !is_reminder_plan(plan.as_str()) {
                return Err(validation("请选择有效的提醒方案"));
            }
        }
        if let Some(mode) = &self.repeat_time_mode {
            if !is_repeat_time_mode(mode.as_str()) {
                return Err(validation("请选择有效的重复时间方式"));
            }
        }
        if self.repeat_times.len() > 0 {
            validate_repeat_times(self.repeat_times.as_slice(), 1, 2)?;
        }
        let plan_repeat = opt_str_is(&self.reminder_plan, "REPEAT");
        if plan_repeat {
            if opt_str_is(&self.repeat_time_mode, "DEFAULT") && self.repeat_times.len() > 0
                && self.repeat_times.len() != 2 {
                return Err(validation("默认重复提醒需要两个时间"));
            }
            if opt_str_is(&self.repeat_time_mode, "SPECIFIED") && self.repeat_times.len() > 1 {
                return Err(validation("指定重复提醒只能设置一个时间"));
            }
        }
        if self.lead_value == Some(0u32) || self.cadence_value == Some(0u32) {
            return Err(validation("提醒周期必须大于 0"));
        }
        if let Some(value) = self.emphasis_max_per_day {
            if !(1 <= value && value <= 96) {
                return Err(validation("每日强调提醒次数必须在 1–96 次之间"));
            }
        }
        if let Some(unit) = &self.lead_unit {
            if !is_schedule_unit(unit.as_str()) {
                return Err(validation("请选择有效的预警单位"));
            }
        }
        if let Some(unit) = &self.cadence_unit {
            if !is_schedule_unit(unit.as_str()) {
                return Err(validation("请选择有效的提醒周期单位"));
            }
        }
        let start = parse_optional_datetime(&self.start_at)?;
        let end = parse_optional_datetime(&self.end_at)?;
        parse_optional_datetime(&self.target_at)?;
        if opt_str_is(&self.kind, "WARNING") && (self.target_at.is_none()
            || self.lead_value.is_none() || self.lead_unit.is_none()) {
            return Err(validation("预警事件需要目标时间和提前量"));
        }
        if opt_str_is(&self.kind, "CONTINUOUS") && (start.is_none() || end.is_none()
            || self.cadence_value.is_none() || self.cadence_unit.is_none()) {
            return Err(validation("持续事件需要开始时间、结束时间和提醒周期"));
        }
        if opt_str_is(&self.reminder_plan, "CUSTOM") && (self.cadence_value.is_none()
            || self.cadence_unit.is_none()) {
            return Err(validation("自定义提醒需要提醒周期"));
        }
        if let (Some(start), Some(end)) = (start, end) {
            if start.0 > end.0 || (start.0 == end.0 && start.1 > end.1) {
                return Err(validation("结束时间不能早于开始时间"));
            }
        }
        Ok(())
    }
}

/// Whether the optional text is present and equal to `lit`.
pub fn opt_str_is(o: &Option<String>, lit: &str) -> (r: bool)
    ensures
        r == opt_is(*o, lit@),
{
    match o {
        Some(x) => str_eq(x.as_str(), lit),
        None => false,
    }
}

/// Reads an optional RFC 3339 text.
fn parse_optional_datetime(value: &Option<String>) -> (r: AppResult<Option<(i64, u32)>>)
    ensures
        match r {
            Ok(t) => opt_time_ok(*value) && t == opt_time(*value),
            Err(e) => !opt_time_ok(*value) && is_validation(e, "事件时间格式无效"@),
        },
{
    match value {
        None => Ok(None),
        Some(text) => match crate::clock::parse_rfc3339_instant(text.as_str()) {
            Some(t) => Ok(Some(t)),
            None => Err(validation("事件时间格式无效")),
        },
    }
}

// ---------------------------------------------------------------------------
// Items
// ---------------------------------------------------------------------------
/// A stored item as the lists and reports see it.
#[derive(Debug, Clone)]
pub struct Item {
    pub id: String,
    pub title: String,
    pub notes: String,
    pub status: String,
    pub category_id: Option<String>,
    pub category_name: Option<String>,
    pub due_at: String,
    pub due_local_date: String,
    pub due_local_time: String,
    pub due_source: String,
    pub rollover_policy: String,
    pub rollover_count: u32,
    pub completion_policy: String,
    pub repeat_interval_minutes: Option<u32>,
    pub next_reminder_at: Option<String>,
    pub reminder_paused: bool,
    pub bypass_app_quiet_hours: bool,
    pub created_at: String,
    pub updated_at: String,
    pub completed_at: Option<String>,
    pub deleted_at: Option<String>,
    pub event_kind: Option<String>,
    pub reminder_plan: String,
    pub important: bool,
    pub time_mode: String,
    pub start_at: Option<String>,
    pub end_at: Option<String>,
    pub target_at: Option<String>,
    pub lead_value: Option<u32>,
    pub lead_unit: Option<String>,
    pub cadence_value: Option<u32>,
    pub cadence_unit: Option<String>,
    pub emphasis_max_per_day: u32,
    pub repeat_time_mode: String,
    pub repeat_times: Vec<String>,
    pub tags: Vec<Tag>,
}

/// A new item as entered.
#[derive(Debug, Clone)]
pub struct CreateItemInput {
    pub title: String,
    pub notes: String,
    pub category_id: Option<String>,
    pub due_at: Option<String>,
    pub must_complete_today: bool,
    pub repeat_interval_minutes: Option<u32>,
    pub tag_ids: Vec<String>,
    pub event: Option<EventConfigurationInput>,
}

/// The complaint about an item's title, interval, due time and event.
pub open spec fn item_problem(
    title: Seq<char>,
    repeat_interval_minutes: Option<u32>,
    due_at: Option<String>,
    event: Option<EventConfigurationInput>,
) -> Option<Seq<char>> {
    let t = trim_seq(title);
    if t.len() == 0 {
        Some("事项内容不能为空"@)
    } else if t.len() > 4000 {
        Some("事项内容不能超过 4000 个字符"@)
    } else if repeat_interval_minutes matches Some(i) && !(5 <= i <= 240) {
        Some("提醒间隔必须在 5–240 分钟之间"@)
    } else if due_at matches Some(d) && chrono_rfc3339_seconds(d@) is None {
        Some("指定时间格式无效"@)
    } else {
        match event {
            Some(e) => e.problem(),
            None => None,
        }
    }
}

fn check_item(
    title: &String,
    repeat_interval_minutes: Option<u32>,
    due_at: Option<&String>,
    event: &Option<EventConfigurationInput>,
) -> (r: AppResult<()>)
    ensures
        answers(
            r,
            item_problem(
                title@,
                repeat_interval_minutes,
                match due_at {
                    Some(d) => Some(*d),
                    None => None,
                },
                *event,
            ),
        ),
{
    let trimmed = trim(title.as_str());
    let count = chars_of(trimmed.as_str()).len();
    if count == 0 {
        return Err(validation("事项内容不能为空"));
    }
    if count > 4000 {
        return Err(validation("事项内容不能超过 4000 个字符"));
    }
    if let Some(interval) = repeat_interval_minutes {
        if !(5 <= interval && interval <= 240) {
            return Err(validation("提醒间隔必须在 5–240 分钟之间"));
        }
    }
    if let Some(due) = due_at {
        if parse_rfc3339(due.as_str()).is_none() {
            return Err(validation("指定时间格式无效"));
        }
    }
    if let Some(config) = event {
        config.validate()?;
    }
    Ok(())
}

impl CreateItemInput {
    /// Checks a new item: a non-empty title of at most 4000 characters, an
    /// interval of 5–240 minutes, a readable due time and a valid event.
    pub fn validate(&self) -> (r: AppResult<()>)
        ensures
            answers(
                r,
                item_problem(self.title@, self.repeat_interval_minutes, self.due_at, self.event),
            ),
    {
        let due = match &self.due_at {
            Some(d) => Some(d),
            None => None,
        };
        check_item(&self.title, self.repeat_interval_minutes, due, &self.event)
    }
}

/// A changed item as entered.
#[derive(Debug, Clone)]
pub struct UpdateItemInput {
    pub title: String,
    pub notes: String,
    pub category_id: Option<String>,
    pub tag_ids: Vec<String>,
    pub due_at: String,
    pub must_complete_today: bool,
    pub repeat_interval_minutes: Option<u32>,
    pub event: Option<EventConfigurationInput>,
}

impl UpdateItemInput {
    /// Checks a changed item by the same rules as a new one, its due time
    /// being required.
    pub fn validate(&self) -> (r: AppResult<()>)
        ensures
            answers(
                r,
                item_problem(
                    self.title@,
                    self.repeat_interval_minutes,
                    Some(self.due_at),
                    self.event,
                ),
            ),
    {
        check_item(&self.title, self.repeat_interval_minutes, Some(&self.due_at), &self.event)
    }
}


// ---------------------------------------------------------------------------
// Due times and reminder times
// ---------------------------------------------------------------------------
/// When an item is due: the instant and the local date and time it shows.
#[derive(Debug, Clone, Copy)]
pub struct DueMoment {
    pub utc: i64,
    pub local_date: LocalDate,
    pub local_time: u32,
}

/// The message when a local time cannot be placed on the time line.
pub open spec fn unresolvable_message() -> Seq<char> {
    "本地时间落在无效的时区切换区间"@
}

/// The instant that shows the local wall-clock moment `l`.  An ambiguous
/// moment takes the first instant the zone lists (`earliest`); a skipped moment moves forward minute
/// by minute, up to three hours, to the first moment that exists.
pub fn resolve_local_datetime(l: LocalDateTime) -> (r: AppResult<i64>)
    requires
        supported_local(l),
    ensures
        match r {
            Ok(u) => timestamp_in_range(u as int) && (inner_date(l.date) ==> instant_ok(u as int))
                && crate::clock::resolves_near(l, u as int),
            Err(e) => is_validation(e, unresolvable_message()),
        },
{
    match lookup_local(l) {
        LocalLookup::Single(u) => Ok(u),
        LocalLookup::Ambiguous(earlier, _) => Ok(earlier),
        LocalLookup::Missing => {
            let mut minutes: u32 = 1;
            while minutes <= 180
                invariant
                    1 <= minutes <= 181,
                    supported_local(l),
                decreases 181 - minutes,
            {
                match local_add_minutes(l, minutes) {
                    Some(adjusted) => {
                        if let LocalLookup::Single(u) = lookup_local(adjusted) {
                            assert(inner_date(l.date) ==> spare_date(adjusted.date));
                            return Ok(u);
                        }
                    },
                    None => {
                        return Err(validation("本地时间落在无效的时区切换区间"));
                    },
                }
                minutes = minutes + 1;
            }
            Err(validation("本地时间落在无效的时区切换区间"))
        },
    }
}

/// A due moment at the given local date and time of day.
pub fn due_for_local_date(date: LocalDate, time: u32) -> (r: AppResult<DueMoment>)
    requires
        supported_date(date),
        time < DAY_SECONDS,
    ensures
        match r {
            Ok(d) => d.local_date == date && d.local_time == time && timestamp_in_range(
                d.utc as int,
            ) && (inner_date(date) ==> instant_ok(d.utc as int)) && crate::clock::resolves_near(
                LocalDateTime { date, seconds: time },
                d.utc as int,
            ),
            Err(e) => is_validation(e, unresolvable_message()),
        },
{
    let utc = resolve_local_datetime(LocalDateTime { date, seconds: time })?;
    Ok(DueMoment { utc, local_date: date, local_time: time })
}

/// The first day after `from`, at most two weeks on, whose weekday number
/// is one of `workdays`; `None` when there is none (or the calendar ends).
pub open spec fn workday_search(from: LocalDate, workdays: Seq<u32>, k: int) -> Option<
    (i32, u32, u32),
>
    decreases 15 - k,
{
    if k > 14 || k < 1 {
        None
    } else {
        match chrono_add_days(from.year, from.month, from.day, k as i64) {
            None => None,
            Some(d) => if workdays.contains(chrono_weekday(d.0, d.1, d.2)) {
                Some(d)
            } else {
                workday_search(from, workdays, k + 1)
            },
        }
    }
}

/// The next workday after `from`.
pub fn next_workday(from: LocalDate, workdays: &[u32]) -> (r: AppResult<LocalDate>)
    requires
        supported_date(from),
    ensures
        match r {
            Ok(d) => workday_search(from, workdays@, 1) == Some(date_tuple(d)) && supported_date(
                d,
            ),
            Err(e) => workday_search(from, workdays@, 1) is None && is_validation(
                e,
                "无法计算下一工作日"@,
            ),
        },
{
    let mut offset: i64 = 1;
    while offset <= 14
        invariant
            1 <= offset <= 15,
            supported_date(from),
            workday_search(from, workdays@, 1) == workday_search(from, workdays@, offset as int),
        decreases 15 - offset,
    {
        match date_add_days(from, offset) {
            None => {
                return Err(validation("无法计算下一工作日"));
            },
            Some(date) => {
                let weekday = weekday_number(date);
                if contains_u32(workdays, weekday) {
                    return Ok(date);
                }
            },
        }
        offset = offset + 1;
    }
    Err(validation("无法计算下一工作日"))
}

/// Whether `value` occurs in `values`.
pub fn contains_u32(values: &[u32], value: u32) -> (r: bool)
    ensures
        r == values@.contains(value),
{
    let mut i: usize = 0;
    while i < values.len()
        invariant
            i <= values.len(),
            forall|k: int| 0 <= k < i ==> values@[k] != value,
        decreases values.len() - i,
    {
        if values[i] == value {
            return true;
        }
        i = i + 1;
    }
    false
}

/// The date a new item without an explicit time falls due on: today when
/// today is a workday and the default time has not passed, otherwise the
/// next workday.
pub open spec fn default_due_date_spec(now: LocalDateTime, target: u32, workdays: Seq<u32>) -> Option<
    (i32, u32, u32),
> {
    let today = now.date;
    let today_is_workday = workdays.contains(chrono_weekday(today.year, today.month, today.day));
    if !today_is_workday || now.seconds >= target {
        workday_search(today, workdays, 1)
    } else {
        Some(date_tuple(today))
    }
}

/// The date a new item without an explicit time falls due on, seen from the
/// local moment `now`.
pub fn default_due_date(now: LocalDateTime, target: u32, workdays: &[u32]) -> (r: AppResult<
    LocalDate,
>)
    requires
        supported_local(now),
    ensures
        match r {
            Ok(d) => default_due_date_spec(now, target, workdays@) == Some(date_tuple(d))
                && supported_date(d),
            Err(e) => default_due_date_spec(now, target, workdays@) is None && is_validation(
                e,
                "无法计算下一工作日"@,
            ),
        },
{
    let weekday = weekday_number(now.date);
    let today_is_workday = contains_u32(workdays, weekday);
    if !today_is_workday || now.seconds >= target {
        next_workday(now.date, workdays)
    } else {
        Ok(now.date)
    }
}

/// Where a due moment by default was placed from `now`: at the default due
/// time, on the date `default_due_date_spec` picks for the local reading of
/// `now` (within a day of it), near that wall-clock reading.
pub open spec fn default_due_answer(now: int, settings: Settings, d: DueMoment) -> bool {
    exists|l: LocalDateTime|
        #![trigger crate::clock::within_offset(l, now)]
        crate::clock::within_offset(l, now) && supported_local(l) && default_due_from(l, settings, d)
}

/// Where a "today must" due moment was placed from `now`, read on the local
/// day of `now`: today at the default due time when that resolves after
/// `now`, otherwise `now` itself with its local reading.
pub open spec fn must_complete_answer(now: int, settings: Settings, d: DueMoment) -> bool {
    exists|n: LocalDateTime|
        #![trigger crate::clock::within_offset(n, now)]
        crate::clock::within_offset(n, now) && supported_local(n) && must_complete_from(n, now, settings, d)
}

/// The "today must" due moment, given the local reading `n` of `now` and
/// `target`, the default due time on that day as the zone resolved it: the
/// target when it lies after `now`, otherwise `now` with the reading's date
/// and time of day.
pub open spec fn must_due_choice(now: int, n: LocalDateTime, target: DueMoment) -> DueMoment {
    if target.utc > now {
        target
    } else {
        DueMoment { utc: now as i64, local_date: n.date, local_time: n.seconds }
    }
}

/// Picks the "today must" due moment from the resolved default due time.
pub fn choose_must_due(now_utc: i64, n: LocalDateTime, target: DueMoment) -> (r: DueMoment)
    ensures
        r == must_due_choice(now_utc as int, n, target),
{
    if target.utc > now_utc {
        target
    } else {
        DueMoment { utc: now_utc, local_date: n.date, local_time: n.seconds }
    }
}

/// Where a "today must" due moment was placed from the local reading `n` of
/// `now`: `must_due_choice` applied to the default due time of that local
/// day, as resolved near its wall-clock reading.
pub open spec fn must_complete_from(n: LocalDateTime, now: int, settings: Settings, d: DueMoment) -> bool {
    exists|t: DueMoment|
        #![trigger must_due_choice(now, n, t)]
        t.local_date == n.date && chrono_parse_hm(settings.default_due_time@) == Some(t.local_time)
            && crate::clock::resolves_near(LocalDateTime { date: n.date, seconds: t.local_time }, t.utc as int)
            && d == must_due_choice(now, n, t)
}

/// When a new item without an explicit time falls due: at the default due
/// time on the date `default_due_date_spec` picks for the local reading of
/// `now`.
pub fn next_default_due(now_utc: i64, settings: &Settings) -> (r: AppResult<DueMoment>)
    requires
        instant_ok(now_utc as int),
    ensures
        chrono_parse_hm(settings.default_due_time@) is None ==> (r matches Err(e) && is_validation(
            e,
            bad_time_message(settings.default_due_time@),
        )),
        r matches Ok(d) ==> default_due_answer(now_utc as int, *settings, d),
{
    let now = to_local(now_utc);
    let r = next_default_due_from(now, settings);
    assert(crate::clock::within_offset(now, now_utc as int));
    r
}

/// Where a due moment by default was placed from the local reading `n`: at
/// the default due time, on the date `default_due_date_spec` picks for `n`,
/// near that wall-clock reading.
pub open spec fn default_due_from(n: LocalDateTime, settings: Settings, d: DueMoment) -> bool {
    &&& chrono_parse_hm(settings.default_due_time@) == Some(d.local_time)
    &&& default_due_date_spec(n, d.local_time, settings.workdays@) == Some(date_tuple(d.local_date))
    &&& crate::clock::resolves_near(
        LocalDateTime { date: d.local_date, seconds: d.local_time },
        d.utc as int,
    )
}

/// When a new item without an explicit time falls due, given the local
/// reading `now` of the present: at the default due time on the date
/// `default_due_date_spec` picks for it.
pub fn next_default_due_from(now: LocalDateTime, settings: &Settings) -> (r: AppResult<DueMoment>)
    requires
        supported_local(now),
    ensures
        chrono_parse_hm(settings.default_due_time@) is None ==> (r matches Err(e) && is_validation(
            e,
            bad_time_message(settings.default_due_time@),
        )),
        r matches Ok(d) ==> default_due_from(now, *settings, d),
{
    let target = parse_time(settings.default_due_time.as_str())?;
    let date = default_due_date(now, target, settings.workdays.as_slice())?;
    let due = due_for_local_date(date, target)?;
    Ok(due)
}

/// When a "today must" item falls due: at today's default due time if that
/// is still ahead, otherwise right now.
pub fn must_complete_due(now_utc: i64, settings: &Settings) -> (r: AppResult<DueMoment>)
    requires
        instant_ok(now_utc as int),
    ensures
        chrono_parse_hm(settings.default_due_time@) is None ==> (r matches Err(e) && is_validation(
            e,
            bad_time_message(settings.default_due_time@),
        )),
        r matches Ok(d) ==> (d.utc > now_utc && chrono_parse_hm(settings.default_due_time@) == Some(
            d.local_time,
        )) || d.utc == now_utc,
        r matches Ok(d) ==> must_complete_answer(now_utc as int, *settings, d),
{
    let now = to_local(now_utc);
    let r = must_complete_due_from(now_utc, now, settings);
    assert(crate::clock::within_offset(now, now_utc as int));
    r
}

/// When a "today must" item falls due, given the local reading `now` of
/// `now_utc`: at that day's default due time if that resolves after
/// `now_utc`, otherwise right then.
pub fn must_complete_due_from(now_utc: i64, now: LocalDateTime, settings: &Settings) -> (r: AppResult<
    DueMoment,
>)
    requires
        supported_local(now),
    ensures
        chrono_parse_hm(settings.default_due_time@) is None ==> (r matches Err(e) && is_validation(
            e,
            bad_time_message(settings.default_due_time@),
        )),
        r matches Ok(d) ==> (d.utc > now_utc && chrono_parse_hm(settings.default_due_time@) == Some(
            d.local_time,
        )) || d.utc == now_utc,
        r matches Ok(d) ==> must_complete_from(now, now_utc as int, *settings, d),
        r matches Err(e) ==> (chrono_parse_hm(settings.default_due_time@) is None && is_validation(
            e,
            bad_time_message(settings.default_due_time@),
        )) || is_validation(e, unresolvable_message()),
{
    let target_time = parse_time(settings.default_due_time.as_str())?;
    let target = due_for_local_date(now.date, target_time)?;
    let d = choose_must_due(now_utc, now, target);
    assert(must_complete_from(now, now_utc as int, *settings, d));
    Ok(d)
}

/// A due moment read from an explicit RFC 3339 time, with the local date
/// and time it shows.
pub fn due_from_explicit(value: &str) -> (r: AppResult<DueMoment>)
    ensures
        match r {
            Ok(d) => chrono_rfc3339_seconds(value@) == Some(d.utc) && supported_date(d.local_date)
                && d.local_time < DAY_SECONDS && crate::clock::within_offset(
                LocalDateTime { date: d.local_date, seconds: d.local_time },
                d.utc as int,
            ),
            Err(e) => chrono_rfc3339_seconds(value@) is None && is_validation(e, "指定时间格式无效"@),
        },
{
    match parse_rfc3339(value) {
        None => Err(validation("指定时间格式无效")),
        Some(utc) => {
            let local = to_local(utc);
            Ok(DueMoment { utc, local_date: local.date, local_time: local.seconds })
        },
    }
}

/// Whether a time of day lies in the quiet hours from `start` to `end`
/// (which may wrap past midnight; equal ends mean no quiet hours).
pub open spec fn time_is_quiet_spec(value: u32, start: u32, end: u32) -> bool {
    if start == end {
        false
    } else if start < end {
        value >= start && value < end
    } else {
        value >= start || value < end
    }
}

/// Quiet hours from `start` to `end`: when they do not cross midnight a
/// time is quiet exactly from `start` up to (not including) `end`; when they
/// cross midnight, from `start` to midnight and from midnight up to `end`;
/// equal ends mean there are no quiet hours.
pub proof fn lemma_quiet_hours(value: u32, start: u32, end: u32)
    ensures
        start < end ==> (time_is_quiet_spec(value, start, end) <==> start <= value && value < end),
        end < start ==> (time_is_quiet_spec(value, start, end) <==> start <= value || value < end),
        start == end ==> !time_is_quiet_spec(value, start, end),
{
}

/// Whether a time of day lies in the quiet hours.
pub fn time_is_quiet(value: u32, start: u32, end: u32) -> (r: bool)
    ensures
        r == time_is_quiet_spec(value, start, end),
        start < end ==> (r <==> start <= value && value < end),
        end < start ==> (r <==> start <= value || value < end),
        start == end ==> !r,
{
    proof {
        lemma_quiet_hours(value, start, end);
    }
    if start == end {
        return false;
    }
    if start < end {
        value >= start && value < end
    } else {
        value >= start || value < end
    }
}

/// The date quiet hours end on, seen from a quiet local moment: the same
/// day when the quiet hours do not wrap or the moment is already past
/// midnight, otherwise the next day.
pub open spec fn quiet_end_date_spec(local: LocalDateTime, start: u32, end: u32) -> Option<
    (i32, u32, u32),
> {
    if start < end || local.seconds < end {
        Some(date_tuple(local.date))
    } else {
        chrono_add_days(local.date.year, local.date.month, local.date.day, 1)
    }
}

/// Where a reminder due at `c` was placed, given the local reading `l` of
/// `c` and quiet hours from `start` to `end`: at `c` itself when `l` lies
/// outside the quiet hours, otherwise near the wall-clock reading of the end
/// of the quiet hours, on the day of `l` or, for quiet hours across midnight
/// read before midnight, the next.
pub open spec fn quiet_from(l: LocalDateTime, c: int, start: u32, end: u32, t: int) -> bool {
    if !time_is_quiet_spec(l.seconds, start, end) {
        t == c
    } else {
        exists|m: LocalDateTime|
            #![trigger crate::clock::resolves_near(m, t)]
            m.seconds == end && quiet_end_date_spec(l, start, end) == Some(date_tuple(m.date))
                && crate::clock::resolves_near(m, t)
    }
}

/// Where a reminder `interval_minutes` after `now` was placed with quiet
/// hours from `start` to `end`: `quiet_from` for the local reading of that
/// moment (in a zone whose offset is under a day).
pub open spec fn quiet_answer(now: int, interval_minutes: u32, start: u32, end: u32, t: int) -> bool {
    let c = now + interval_minutes * 60;
    exists|l: LocalDateTime|
        #![trigger crate::clock::within_offset(l, c)]
        crate::clock::within_offset(l, c) && supported_local(l) && quiet_from(l, c, start, end, t)
}

/// A reminder due at `candidate`, given its local reading `local`: kept when
/// the reading lies outside the quiet hours from `start` to `end`, otherwise
/// moved to the end of the quiet hours.
pub fn defer_past_quiet(candidate: i64, local: LocalDateTime, start: u32, end: u32) -> (r: AppResult<i64>)
    requires
        supported_local(local),
        instant_ok(candidate as int),
        end < DAY_SECONDS,
    ensures
        !time_is_quiet_spec(local.seconds, start, end) ==> r == Ok::<i64, AppError>(candidate),
        // A reminder read outside the quiet hours keeps its own instant.
        (start == end || (start < end && (local.seconds < start || end <= local.seconds)) || (end < start
            && end <= local.seconds && local.seconds < start)) ==> r == Ok::<i64, AppError>(candidate),
        r matches Ok(t) ==> instant_ok(t as int) && quiet_from(local, candidate as int, start, end, t as int),
        r matches Err(e) ==> is_validation(e, unresolvable_message()),
{
    proof {
        lemma_quiet_hours(local.seconds, start, end);
    }
    if !time_is_quiet(local.seconds, start, end) {
        return Ok(candidate);
    }
    let end_date = if start < end || local.seconds < end {
        local.date
    } else {
        match date_add_days(local.date, 1) {
            Some(d) => d,
            None => {
                return Err(validation("本地时间落在无效的时区切换区间"));
            },
        }
    };
    let m = LocalDateTime { date: end_date, seconds: end };
    let resolved = resolve_local_datetime(m)?;
    if !instant_ok_exec(resolved) {
        return Err(validation("本地时间落在无效的时区切换区间"));
    }
    proof {
        assert(crate::clock::resolves_near(m, resolved as int));
        assert(quiet_end_date_spec(local, start, end) == Some(date_tuple(m.date)));
    }
    Ok(resolved)
}

/// The next reminder `interval_minutes` after `now`, moved to the end of
/// the quiet hours when it would fall inside them (unless quiet hours are
/// off or the item bypasses them).
pub fn next_repeat_at(
    now_utc: i64,
    interval_minutes: u32,
    settings: &Settings,
    bypass_quiet_hours: bool,
) -> (r: AppResult<i64>)
    requires
        schedulable(now_utc as int),
    ensures
        (!settings.quiet_hours_enabled || bypass_quiet_hours) ==> (r matches Ok(t) && t == now_utc
            + interval_minutes * 60),
        (settings.quiet_hours_enabled && !bypass_quiet_hours && chrono_parse_hm(
            settings.quiet_start@,
        ) is None) ==> (r matches Err(e) && is_validation(e, bad_time_message(settings.quiet_start@))),
        r matches Ok(t) ==> instant_ok(t as int),
        r matches Ok(t) ==> (!settings.quiet_hours_enabled || bypass_quiet_hours || (chrono_parse_hm(
            settings.quiet_start@,
        ) matches Some(qs) && chrono_parse_hm(settings.quiet_end@) matches Some(qe) && quiet_answer(
            now_utc as int,
            interval_minutes,
            qs,
            qe,
            t as int,
        ))),
{
    let candidate: i64 = now_utc + (interval_minutes as i64) * 60;
    if !settings.quiet_hours_enabled || bypass_quiet_hours {
        return Ok(candidate);
    }
    let local = to_local(candidate);
    let start = parse_time(settings.quiet_start.as_str())?;
    let end = parse_time(settings.quiet_end.as_str())?;
    let r = defer_past_quiet(candidate, local, start, end);
    assert(crate::clock::within_offset(local, candidate as int));
    r
}

/// Whether an instant lies in the supported range with a day to spare.
pub fn instant_ok_exec(s: i64) -> (r: bool)
    ensures
        r == instant_ok(s as int),
{
    MIN_TIMESTAMP + 86400 <= s && s <= MAX_TIMESTAMP - 86400
}


/// Where a daily time of day `time` was placed from `now`: `daily_from`
/// for the local reading of `now` (in a zone whose offset is under a day).
pub open spec fn daily_answer(now: int, time: u32, t: int) -> bool {
    exists|n: LocalDateTime|
        #![trigger crate::clock::within_offset(n, now)]
        crate::clock::within_offset(n, now) && supported_local(n) && daily_from(n, now, time, t)
}

/// Where a daily time of day `time` was placed from the local reading
/// `local` of `now`: at that time on that local day, as the zone resolved
/// it, when that lies after `now`; otherwise at that time on the day after,
/// as the zone resolved it.
pub open spec fn daily_from(local: LocalDateTime, now: int, time: u32, t: int) -> bool {
    exists|d: int|
        #![trigger crate::clock::resolves_near(LocalDateTime { date: local.date, seconds: time }, d)]
        crate::clock::resolves_near(LocalDateTime { date: local.date, seconds: time }, d) && (d > now
            ==> t == d) && (d <= now ==> tomorrow_resolved(local.date, time, t))
}

/// The next instant at which the local clock shows `time`, given the local
/// reading `local` of `now`: that day if it resolves after `now`, otherwise
/// the day after.
pub fn next_daily_from(now_utc: i64, local: LocalDateTime, time: u32) -> (r: AppResult<i64>)
    requires
        supported_local(local),
        deep_date(local.date),
        time < DAY_SECONDS,
    ensures
        r matches Ok(t) ==> instant_ok(t as int) && daily_from(local, now_utc as int, time, t as int),
        r matches Err(e) ==> is_validation(e, unresolvable_message()),
{
    let lt = LocalDateTime { date: local.date, seconds: time };
    let today = resolve_local_datetime(lt)?;
    if today > now_utc {
        assert(crate::clock::resolves_near(lt, today as int));
        return Ok(today);
    }
    assert(crate::clock::resolves_near(lt, today as int));
    let date = match date_add_days(local.date, 1) {
        Some(d) => d,
        None => {
            return Err(validation("本地时间落在无效的时区切换区间"));
        },
    };
    let l = LocalDateTime { date, seconds: time };
    let out = resolve_local_datetime(l)?;
    assert(crate::clock::resolves_near(l, out as int));
    assert(crate::clock::day_number(date) == crate::clock::day_number(local.date) + 1);
    assert(tomorrow_resolved(local.date, time, out as int));
    Ok(out)
}

/// The next instant at which the local clock shows `time`: today if that is
/// still ahead of `now`, otherwise tomorrow.
pub fn next_daily_at(now_utc: i64, time: u32) -> (r: AppResult<i64>)
    requires
        schedulable(now_utc as int),
        time < DAY_SECONDS,
    ensures
        r matches Ok(t) ==> instant_ok(t as int) && daily_answer(now_utc as int, time, t as int),
        r matches Err(e) ==> is_validation(e, unresolvable_message()),
{
    let local = to_local(now_utc);
    let r = next_daily_from(now_utc, local, time);
    proof {
        if let Ok(t) = r {
            assert(crate::clock::within_offset(local, now_utc as int));
            assert(daily_from(local, now_utc as int, time, t as int));
        }
    }
    r
}

/// The date `amount` units (days, weeks, months or years) after, or with
/// `forward == false` before, `d`; months and years keep the day of month,
/// clamped to the end of a shorter month.
pub open spec fn shift_date_spec(d: LocalDate, amount: u32, unit: Seq<char>, forward: bool) -> Option<
    (i32, u32, u32),
> {
    let days: int = if forward {
        amount as int
    } else {
        -(amount as int)
    };
    if unit == "DAY"@ {
        chrono_add_days(d.year, d.month, d.day, days as i64)
    } else if unit == "WEEK"@ {
        chrono_add_days(d.year, d.month, d.day, (days * 7) as i64)
    } else if unit == "MONTH"@ || unit == "YEAR"@ {
        let months: u32 = if unit == "MONTH"@ {
            amount
        } else if amount * 12 > u32::MAX {
            u32::MAX
        } else {
            (amount * 12) as u32
        };
        match add_months_spec(d, months, forward) {
            Some(x) => Some(date_tuple(x)),
            None => None,
        }
    } else {
        None
    }
}

/// The unit is months.
pub open spec fn str_eq_spec_month(unit: Seq<char>) -> bool {
    unit == "MONTH"@
}

/// The date `amount` units after or before `d`.
pub fn shift_date(d: LocalDate, amount: u32, unit: &str, forward: bool) -> (r: Option<LocalDate>)
    requires
        supported_date(d),
    ensures
        match r {
            Some(x) => shift_date_spec(d, amount, unit@, forward) == Some(date_tuple(x))
                && supported_date(x),
            None => shift_date_spec(d, amount, unit@, forward) is None,
        },
{
    if str_eq(unit, "DAY") {
        let days: i64 = if forward {
            amount as i64
        } else {
            -(amount as i64)
        };
        date_add_days(d, days)
    } else if str_eq(unit, "WEEK") {
        let days: i64 = if forward {
            (amount as i64) * 7
        } else {
            -((amount as i64) * 7)
        };
        date_add_days(d, days)
    } else if str_eq(unit, "MONTH") || str_eq(unit, "YEAR") {
        let months: u32 = if str_eq(unit, "MONTH") {
            amount
        } else {
            if amount > 357913941 {
                4294967295u32
            } else {
                amount * 12
            }
        };
        assert(months == (if str_eq_spec_month(unit@) {
            amount
        } else if amount * 12 > u32::MAX {
            u32::MAX
        } else {
            (amount * 12) as u32
        })) by (nonlinear_arith)
            requires
                str_eq_spec_month(unit@) ==> months == amount,
                !str_eq_spec_month(unit@) ==> months == (if amount > 357913941 {
                    4294967295u32
                } else {
                    (amount * 12) as u32
                }),
        ;
        add_months(d, months, forward)
    } else {
        None
    }
}

/// Where a calendar shift of `value` was placed: near the wall-clock reading
/// at the local time of day of `value` (read in a zone whose offset is under
/// a day), on the date `amount` units after or before its local date.
pub open spec fn shift_answer(value: int, amount: u32, unit: Seq<char>, forward: bool, t: int) -> bool {
    exists|l: LocalDateTime, m: LocalDateTime|
        #![trigger crate::clock::within_offset(l, value), crate::clock::resolves_near(m, t)]
        crate::clock::within_offset(l, value) && m.seconds == l.seconds && shift_date_spec(
            l.date,
            amount,
            unit,
            forward,
        ) == Some(date_tuple(m.date)) && crate::clock::resolves_near(m, t)
}

/// The instant `amount` calendar units after (or before) `value`, at the
/// same local time of day.
pub fn shift_calendar(value: i64, amount: u32, unit: &str, forward: bool) -> (r: AppResult<i64>)
    requires
        instant_ok(value as int),
    ensures
        (amount == 0 || !is_schedule_unit_spec(unit@)) ==> (r matches Err(e) && is_validation(
            e,
            "提醒周期无效"@,
        )),
        r matches Ok(t) ==> timestamp_in_range(t as int) && amount > 0 && is_schedule_unit_spec(
            unit@,
        ) && shift_answer(value as int, amount, unit@, forward, t as int),
{
    if amount == 0 || !is_schedule_unit(unit) {
        return Err(validation("提醒周期无效"));
    }
    let local = to_local(value);
    let shifted = match shift_date(local.date, amount, unit, forward) {
        Some(d) => d,
        None => {
            return Err(validation("无法计算下一次日历时间"));
        },
    };
    let m = LocalDateTime { date: shifted, seconds: local.seconds };
    let t = resolve_local_datetime(m)?;
    proof {
        assert(crate::clock::within_offset(local, value as int));
        assert(crate::clock::resolves_near(m, t as int));
    }
    Ok(t)
}

/// `s` is the time of day one of the (one or two) repeat times reads as.
pub open spec fn slot_of(values: Seq<Seq<char>>, s: u32) -> bool {
    (values.len() >= 1 && chrono_parse_hm(values[0]) == Some(s)) || (values.len() >= 2
        && chrono_parse_hm(values[1]) == Some(s))
}

/// `s` is no later in the day than any of the repeat times.
pub open spec fn earliest_slot(values: Seq<Seq<char>>, s: u32) -> bool {
    &&& values.len() >= 1 ==> (chrono_parse_hm(values[0]) matches Some(x) && s <= x)
    &&& values.len() >= 2 ==> (chrono_parse_hm(values[1]) matches Some(x) && s <= x)
}


/// Sorted seconds-of-day of one or two repeat times that all parse.
fn sorted_times(values: &[String]) -> (r: AppResult<Vec<u32>>)
    requires
        1 <= values@.len() <= 2,
        all_parse(values@),
    ensures
        r matches Ok(v) && v@.len() == values@.len() && (forall|i: int|
            0 <= i < v@.len() ==> v@[i] < DAY_SECONDS) && (v@.len() == 2 ==> v@[0] <= v@[1])
            && (forall|i: int| 0 <= i < v@.len() ==> slot_of(views_of(values@), #[trigger] v@[i]))
            && earliest_slot(views_of(values@), v@[0]) && v@ == sorted_slots(views_of(values@)),
{
    let first = parse_time(values[0].as_str())?;
    if values.len() == 1 {
        let mut v: Vec<u32> = Vec::new();
        v.push(first);
        return Ok(v);
    }
    let second = parse_time(values[1].as_str())?;
    let mut v: Vec<u32> = Vec::new();
    if first <= second {
        v.push(first);
        v.push(second);
    } else {
        v.push(second);
        v.push(first);
    }
    Ok(v)
}

/// The one or two repeat times, as seconds of the day, earliest first.
pub open spec fn sorted_slots(values: Seq<Seq<char>>) -> Seq<u32> {
    let a: u32 = match chrono_parse_hm(values[0]) {
        Some(x) => x,
        None => 0,
    };
    let b: u32 = match chrono_parse_hm(values[1]) {
        Some(x) => x,
        None => 0,
    };
    if values.len() == 1 {
        seq![a]
    } else if a <= b {
        seq![a, b]
    } else {
        seq![b, a]
    }
}

/// The first of the day's resolved slots `today` that lies after `now`, or
/// `tomorrow` when none does.
pub open spec fn slot_pick(now: int, today: Seq<int>, tomorrow: int) -> int
    decreases today.len(),
{
    if today.len() == 0 {
        tomorrow
    } else if today[0] > now {
        today[0]
    } else {
        slot_pick(now, today.drop_first(), tomorrow)
    }
}

/// The instants as integers.
pub open spec fn ints_of(v: Seq<i64>) -> Seq<int> {
    v.map_values(|x: i64| x as int)
}

/// Picks the next repeat slot from the day's resolved slots, in order, and
/// the resolved earliest slot of the day after.
pub fn choose_slot(now: i64, today: &Vec<i64>, tomorrow: i64) -> (r: i64)
    ensures
        r == slot_pick(now as int, ints_of(today@), tomorrow as int),
{
    let mut i: usize = 0;
    assert(ints_of(today@).subrange(0, today@.len() as int) =~= ints_of(today@));
    while i < today.len()
        invariant
            i <= today@.len(),
            slot_pick(now as int, ints_of(today@), tomorrow as int) == slot_pick(
                now as int,
                ints_of(today@).subrange(i as int, today@.len() as int),
                tomorrow as int,
            ),
        decreases today@.len() - i,
    {
        let ghost rest = ints_of(today@).subrange(i as int, today@.len() as int);
        assert(rest[0] == today@[i as int] as int);
        if today[i] > now {
            return today[i];
        }
        assert(rest.drop_first() =~= ints_of(today@).subrange(i + 1, today@.len() as int));
        i = i + 1;
    }
    assert(ints_of(today@).subrange(i as int, today@.len() as int) =~= Seq::<int>::empty());
    tomorrow
}

/// Each of `slots`, read on `date`, resolved near its wall-clock reading
/// to the instant at the same position of `res`.
pub open spec fn slots_resolved(date: LocalDate, slots: Seq<u32>, res: Seq<int>) -> bool {
    &&& res.len() == slots.len()
    &&& forall|i: int|
        0 <= i < res.len() ==> crate::clock::resolves_near(
            LocalDateTime { date, seconds: slots[i] },
            #[trigger] res[i],
        )
}

/// `tom` is the earliest repeat time `first` on the day after `date`, as
/// resolved near its wall-clock reading.
pub open spec fn tomorrow_resolved(date: LocalDate, first: u32, tom: int) -> bool {
    exists|td: LocalDate|
        #![trigger crate::clock::day_number(td)]
        supported_date(td) && crate::clock::day_number(td) == crate::clock::day_number(date) + 1
            && crate::clock::resolves_near(LocalDateTime { date: td, seconds: first }, tom)
}

/// Where the next repeat slot after `now` was placed from the local reading
/// `local` of `now`: `slot_pick` over the repeat times on that local day, in
/// order, as the zone resolved them, and, when none of them lies after
/// `now`, the earliest time on the day after as the zone resolved it.
pub open spec fn slot_from(local: LocalDateTime, now: int, values: Seq<Seq<char>>, t: int) -> bool {
    exists|res: Seq<int>, tom: int|
        #![trigger slot_pick(now, res, tom)]
        slots_resolved(local.date, sorted_slots(values), res) && t == slot_pick(now, res, tom) && ((
        forall|k: int| 0 <= k < res.len() ==> #[trigger] res[k] <= now) ==> tomorrow_resolved(
            local.date,
            sorted_slots(values)[0],
            tom,
        ))
}

/// Where the next repeat slot after `now` was placed: `slot_from` for the
/// local reading of `now` (in a zone whose offset is under a day).
pub open spec fn slot_answer(now: int, values: Seq<Seq<char>>, t: int) -> bool {
    exists|n: LocalDateTime|
        #![trigger crate::clock::within_offset(n, now)]
        crate::clock::within_offset(n, now) && supported_local(n) && slot_from(n, now, values, t)
}

proof fn lemma_slot_from_intro(local: LocalDateTime, now: int, values: Seq<Seq<char>>, res: Seq<int>, tom: int, t: int)
    requires
        slots_resolved(local.date, sorted_slots(values), res),
        t == slot_pick(now, res, tom),
        (forall|k: int| 0 <= k < res.len() ==> #[trigger] res[k] <= now) ==> tomorrow_resolved(
            local.date,
            sorted_slots(values)[0],
            tom,
        ),
    ensures
        slot_from(local, now, values, t),
{
}

proof fn lemma_slot_pick_found(now: int, got: Seq<int>, rest: Seq<int>, tom: int)
    requires
        got.len() > 0,
        got.last() > now,
        forall|k: int| 0 <= k < got.len() - 1 ==> got[k] <= now,
    ensures
        slot_pick(now, got + rest, tom) == got.last(),
        slot_pick(now, got, tom) == got.last(),
    decreases got.len(),
{
    if got.len() > 1 {
        let g = got.drop_first();
        assert forall|k: int| 0 <= k < g.len() - 1 implies g[k] <= now by {
            assert(g[k] == got[k + 1]);
        }
        lemma_slot_pick_found(now, g, rest, tom);
        assert((got + rest).drop_first() =~= g + rest);
        assert(g.last() == got.last());
    }
}

proof fn lemma_slot_pick_none(now: int, res: Seq<int>, tom: int)
    requires
        forall|k: int| 0 <= k < res.len() ==> res[k] <= now,
    ensures
        slot_pick(now, res, tom) == tom,
    decreases res.len(),
{
    if res.len() > 0 {
        let g = res.drop_first();
        assert forall|k: int| 0 <= k < g.len() implies g[k] <= now by {
            assert(g[k] == res[k + 1]);
        }
        lemma_slot_pick_none(now, g, tom);
    }
}

/// The next repeat slot after `now`, given the local reading `local` of
/// `now`: the first of the (one or two) daily times on that local day that
/// resolves after `now`, otherwise the earliest time the day after.
pub fn next_repeat_slot_from(now_utc: i64, local: LocalDateTime, values: &[String]) -> (r: AppResult<i64>)
    requires
        supported_local(local),
        deep_date(local.date),
    ensures
        repeat_times_problem(values@, 1, 2) matches Some(m) ==> (r matches Err(e) && is_validation(
            e,
            m,
        )),
        r matches Ok(t) ==> repeat_times_problem(values@, 1, 2) is None && instant_ok(t as int)
            && slot_from(local, now_utc as int, views_of(values@), t as int),
        r matches Err(e) ==> repeat_times_problem(values@, 1, 2) is Some || is_validation(
            e,
            unresolvable_message(),
        ),
{
    validate_repeat_times(values, 1, 2)?;
    let times = sorted_times(values)?;
    let ghost slots = sorted_slots(views_of(values@));
    let mut got: Vec<i64> = Vec::new();
    let mut i: usize = 0;
    while i < times.len()
        invariant
            i <= times.len(),
            times@.len() <= 2,
            times@ == slots,
            slots == sorted_slots(views_of(values@)),
            times@.len() >= 1,
            deep_date(local.date),
            supported_local(local),
            repeat_times_problem(values@, 1, 2) is None,
            forall|k: int| 0 <= k < times@.len() ==> times@[k] < DAY_SECONDS,
            got@.len() == i,
            forall|k: int| 0 <= k < i ==> (#[trigger] got@[k]) <= now_utc && instant_ok(got@[k] as int),
            forall|k: int|
                0 <= k < i ==> crate::clock::resolves_near(
                    LocalDateTime { date: local.date, seconds: slots[k] },
                    #[trigger] got@[k] as int,
                ),
        decreases times.len() - i,
    {
        let l = LocalDateTime { date: local.date, seconds: times[i] };
        let candidate = resolve_local_datetime(l)?;
        if candidate > now_utc {
            let ghost before = got@;
            got.push(candidate);
            // The day after is not looked up: the slot just resolved lies after now.
            let pick = choose_slot(now_utc, &got, candidate);
            proof {
                let gi = ints_of(got@);
                assert forall|k: int| 0 <= k < gi.len() - 1 implies gi[k] <= now_utc by {
                    assert(got@[k] == before[k]);
                }
                let rest = Seq::new(
                    (slots.len() - got@.len()) as nat,
                    |k: int| crate::clock::wall_seconds(LocalDateTime { date: local.date, seconds: slots[k + i + 1] }),
                );
                lemma_slot_pick_found(now_utc as int, gi, rest, candidate as int);
                let res = gi + rest;
                assert(res.len() == slots.len());
                assert forall|k: int| 0 <= k < res.len() implies crate::clock::resolves_near(
                    LocalDateTime { date: local.date, seconds: slots[k] },
                    #[trigger] res[k],
                ) by {
                    if k < gi.len() {
                        assert(res[k] == got@[k] as int);
                        if k < i {
                            assert(got@[k] == before[k]);
                        } else {
                            assert(got@[k] == candidate);
                        }
                    } else {
                        assert(res[k] == rest[k - gi.len()]);
                        assert(k - gi.len() + i + 1 == k);
                    }
                }
                assert(slots_resolved(local.date, slots, res));
                assert(res[i as int] == candidate as int);
                assert(!(forall|k: int| 0 <= k < res.len() ==> #[trigger] res[k] <= now_utc));
                lemma_slot_from_intro(local, now_utc as int, views_of(values@), res, candidate as int, pick as int);
            }
            return Ok(pick);
        }
        got.push(candidate);
        i = i + 1;
    }
    let tomorrow = match date_add_days(local.date, 1) {
        Some(d) => d,
        None => {
            return Err(validation("本地时间落在无效的时区切换区间"));
        },
    };
    let l = LocalDateTime { date: tomorrow, seconds: times[0] };
    let out = resolve_local_datetime(l)?;
    let pick = choose_slot(now_utc, &got, out);
    proof {
        let gi = ints_of(got@);
        lemma_slot_pick_none(now_utc as int, gi, out as int);
        assert(crate::clock::day_number(tomorrow) == crate::clock::day_number(local.date) + 1);
        assert(tomorrow_resolved(local.date, slots[0], out as int));
        lemma_slot_from_intro(local, now_utc as int, views_of(values@), gi, out as int, pick as int);
    }
    Ok(pick)
}

/// The next repeat slot after `now`: the first of the (one or two) daily
/// times still ahead today, otherwise the earliest time tomorrow.
pub fn next_repeat_slot_after(now_utc: i64, values: &[String]) -> (r: AppResult<i64>)
    requires
        schedulable(now_utc as int),
    ensures
        repeat_times_problem(values@, 1, 2) matches Some(m) ==> (r matches Err(e) && is_validation(
            e,
            m,
        )),
        r matches Ok(t) ==> repeat_times_problem(values@, 1, 2) is None && instant_ok(t as int)
            && slot_answer(now_utc as int, views_of(values@), t as int),
{
    let local = to_local(now_utc);
    let r = next_repeat_slot_from(now_utc, local, values);
    proof {
        if let Ok(t) = r {
            assert(crate::clock::within_offset(local, now_utc as int));
            assert(slot_from(local, now_utc as int, views_of(values@), t as int));
        }
    }
    r
}


// ---------------------------------------------------------------------------
// Settings
// ---------------------------------------------------------------------------
/// Settings as submitted from the settings page.
#[derive(Debug, Clone)]
pub struct UpdateSettingsInput {
    pub default_due_time: String,
    pub repeat_default_times: Vec<String>,
    pub workdays: Vec<u32>,
    pub overtime_interval_minutes: u32,
    pub quiet_hours_enabled: bool,
    pub quiet_start: String,
    pub quiet_end: String,
    pub global_shortcut: String,
    pub notifications_enabled: bool,
    pub autostart_enabled: bool,
    pub update_existing_default_items: bool,
    pub persistent_notifications_enabled: bool,
    pub overlay_reminders_enabled: bool,
    pub unacknowledged_repeat_minutes: u32,
    pub smtp_enabled: bool,
    pub smtp_host: String,
    pub smtp_port: u16,
    pub smtp_security: String,
    pub smtp_from: String,
    pub smtp_to: String,
    pub smtp_username: String,
    pub smtp_repeat_must_complete: bool,
    pub smtp_password: Option<String>,
    pub event_kind_defaults: Vec<EventKindDefault>,
}

/// The complaint about the default plans of the event kinds, if any: one
/// entry per kind, each kind once, each plan a known plan.
pub open spec fn kind_defaults_problem(defaults: Seq<EventKindDefault>) -> Option<Seq<char>> {
    if defaults.len() != 7 {
        Some("请为七种事件分别选择默认提醒方案"@)
    } else if !(forall|i: int, j: int|
        0 <= i < j < defaults.len() ==> defaults[i].event_kind@ != defaults[j].event_kind@) || !(
    forall|i: int| 0 <= i < defaults.len() ==> is_event_kind_spec(#[trigger] defaults[i].event_kind@))
        || !(forall|i: int|
        0 <= i < defaults.len() ==> is_reminder_plan_spec(#[trigger] defaults[i].reminder_plan@)) {
        Some("事件默认提醒方案不完整，请重新选择"@)
    } else {
        None
    }
}

/// Checks that every event kind has exactly one known default plan.
fn validate_event_kind_defaults(defaults: &[EventKindDefault]) -> (r: AppResult<()>)
    ensures
        answers(r, kind_defaults_problem(defaults@)),
{
    if defaults.len() != 7 {
        return Err(validation("请为七种事件分别选择默认提醒方案"));
    }
    let mut i: usize = 0;
    while i < defaults.len()
        invariant
            i <= defaults.len(),
            defaults@.len() == 7,
            forall|x: int, y: int|
                0 <= x < i && x < y < defaults@.len() ==> defaults@[x].event_kind@
                    != defaults@[y].event_kind@,
            forall|x: int| 0 <= x < i ==> is_event_kind_spec(#[trigger] defaults@[x].event_kind@),
            forall|x: int| 0 <= x < i ==> is_reminder_plan_spec(
                #[trigger] defaults@[x].reminder_plan@,
            ),
        decreases defaults.len() - i,
    {
        if !is_event_kind(defaults[i].event_kind.as_str()) || !is_reminder_plan(
            defaults[i].reminder_plan.as_str(),
        ) {
            return Err(validation("事件默认提醒方案不完整，请重新选择"));
        }
        let mut j: usize = i + 1;
        while j < defaults.len()
            invariant
                i < j <= defaults.len(),
                defaults@.len() == 7,
                forall|y: int| i < y < j ==> defaults@[i as int].event_kind@ != defaults@[y].event_kind@,
            decreases defaults.len() - j,
        {
            if str_eq(defaults[i].event_kind.as_str(), defaults[j].event_kind.as_str()) {
                return Err(validation("事件默认提醒方案不完整，请重新选择"));
            }
            j = j + 1;
        }
        i = i + 1;
    }
    Ok(())
}

impl UpdateSettingsInput {
    /// The complaint about these settings, if any, in the order the checks
    /// are made.
    pub open spec fn problem(&self, shortcut: ShortcutParse) -> Option<Seq<char>> {
        if chrono_parse_hm(self.default_due_time@) is None {
            Some(bad_time_message(self.default_due_time@))
        } else if repeat_times_problem(self.repeat_default_times@, 2, 2) is Some {
            repeat_times_problem(self.repeat_default_times@, 2, 2)
        } else if chrono_parse_hm(self.quiet_start@) is None {
            Some(bad_time_message(self.quiet_start@))
        } else if chrono_parse_hm(self.quiet_end@) is None {
            Some(bad_time_message(self.quiet_end@))
        } else if self.workdays@.len() == 0 || exists|i: int|
            0 <= i < self.workdays@.len() && !(1 <= #[trigger] self.workdays@[i] <= 7) {
            Some("至少选择一个有效工作日"@)
        } else if !(5 <= self.overtime_interval_minutes <= 240) {
            Some("今日必做提醒间隔必须在 5–240 分钟之间"@)
        } else if !(self.smtp_security@ == "tls"@ || self.smtp_security@ == "starttls"@) {
            Some("请选择安全的邮件加密方式"@)
        } else if self.smtp_enabled && trim_seq(self.smtp_host@).len() == 0 {
            Some("请填写 SMTP 服务器地址"@)
        } else if self.smtp_enabled && (!self.smtp_from@.contains('@') || !self.smtp_to@.contains(
            '@',
        )) {
            Some("请填写有效的发件人和收件人邮箱"@)
        } else if shortcut_problem(self.global_shortcut@, shortcut) is Some {
            shortcut_problem(self.global_shortcut@, shortcut)
        } else {
            kind_defaults_problem(self.event_kind_defaults@)
        }
    }

    /// Checks the submitted settings.  `shortcut` is what the desktop
    /// shell's shortcut parser made of the trimmed shortcut text.
    pub fn validate(&self, shortcut: ShortcutParse) -> (r: AppResult<()>)
        ensures
            answers(r, self.problem(shortcut)),
    {
        parse_time(self.default_due_time.as_str())?;
        validate_repeat_times(self.repeat_default_times.as_slice(), 2, 2)?;
        parse_time(self.quiet_start.as_str())?;
        parse_time(self.quiet_end.as_str())?;
        if self.workdays.len() == 0 {
            return Err(validation("至少选择一个有效工作日"));
        }
        let mut i: usize = 0;
        while i < self.workdays.len()
            invariant
                i <= self.workdays@.len(),
                self.workdays@.len() > 0,
                chrono_parse_hm(self.default_due_time@) is Some,
                repeat_times_problem(self.repeat_default_times@, 2, 2) is None,
                chrono_parse_hm(self.quiet_start@) is Some,
                chrono_parse_hm(self.quiet_end@) is Some,
                forall|k: int| 0 <= k < i ==> 1 <= #[trigger] self.workdays@[k] <= 7,
            decreases self.workdays.len() - i,
        {
            let day = self.workdays[i];
            if !(1 <= day && day <= 7) {
                assert(!(1 <= self.workdays@[i as int] <= 7));
                return Err(validation("至少选择一个有效工作日"));
            }
            i = i + 1;
        }
        if !(5 <= self.overtime_interval_minutes && self.overtime_interval_minutes <= 240) {
            return Err(validation("今日必做提醒间隔必须在 5–240 分钟之间"));
        }
        if !(str_eq(self.smtp_security.as_str(), "tls") || str_eq(
            self.smtp_security.as_str(),
            "starttls",
        )) {
            return Err(validation("请选择安全的邮件加密方式"));
        }
        if self.smtp_enabled {
            let host = trim(self.smtp_host.as_str());
            if chars_of(host.as_str()).len() == 0 {
                return Err(validation("请填写 SMTP 服务器地址"));
            }
            let from = chars_of(self.smtp_from.as_str());
            let to = chars_of(self.smtp_to.as_str());
            if !contains_char(&from, '@') || !contains_char(&to, '@') {
                return Err(validation("请填写有效的发件人和收件人邮箱"));
            }
        }
        validate_global_shortcut(self.global_shortcut.as_str(), shortcut)?;
        validate_event_kind_defaults(self.event_kind_defaults.as_slice())?;
        Ok(())
    }

    /// The settings to store: workdays sorted without duplicates, the two
    /// default repeat times in order, text fields trimmed, and the retired
    /// "repeat unacknowledged" switch turned off.
    pub fn settings(&self) -> (r: Settings)
        ensures
            r.default_due_time@ == self.default_due_time@,
            strictly_increasing(r.workdays@),
            forall|d: u32| r.workdays@.contains(d) <==> self.workdays@.contains(d),
            views_sorted(r.repeat_default_times@),
            views_of(r.repeat_default_times@).to_multiset() == views_of(
                self.repeat_default_times@,
            ).to_multiset(),
            r.overtime_interval_minutes == self.overtime_interval_minutes,
            r.quiet_hours_enabled == self.quiet_hours_enabled,
            r.quiet_start@ == self.quiet_start@,
            r.quiet_end@ == self.quiet_end@,
            r.global_shortcut@ == trim_seq(self.global_shortcut@),
            r.notifications_enabled == self.notifications_enabled,
            r.autostart_enabled == self.autostart_enabled,
            r.persistent_notifications_enabled == self.persistent_notifications_enabled,
            r.overlay_reminders_enabled == self.overlay_reminders_enabled,
            !r.repeat_unacknowledged_enabled,
            r.unacknowledged_repeat_minutes == self.unacknowledged_repeat_minutes,
            r.smtp_enabled == self.smtp_enabled,
            r.smtp_host@ == trim_seq(self.smtp_host@),
            r.smtp_port == self.smtp_port,
            r.smtp_security@ == self.smtp_security@,
            r.smtp_from@ == trim_seq(self.smtp_from@),
            r.smtp_to@ == trim_seq(self.smtp_to@),
            r.smtp_username@ == trim_seq(self.smtp_username@),
            r.smtp_repeat_must_complete == self.smtp_repeat_must_complete,
            same_defaults(r.event_kind_defaults@, self.event_kind_defaults@),
    {
        Settings {
            default_due_time: self.default_due_time.clone(),
            repeat_default_times: sort_strings(&self.repeat_default_times),
            workdays: sorted_unique(&self.workdays),
            overtime_interval_minutes: self.overtime_interval_minutes,
            quiet_hours_enabled: self.quiet_hours_enabled,
            quiet_start: self.quiet_start.clone(),
            quiet_end: self.quiet_end.clone(),
            global_shortcut: trim(self.global_shortcut.as_str()),
            notifications_enabled: self.notifications_enabled,
            autostart_enabled: self.autostart_enabled,
            persistent_notifications_enabled: self.persistent_notifications_enabled,
            overlay_reminders_enabled: self.overlay_reminders_enabled,
            repeat_unacknowledged_enabled: false,
            unacknowledged_repeat_minutes: self.unacknowledged_repeat_minutes,
            smtp_enabled: self.smtp_enabled,
            smtp_host: trim(self.smtp_host.as_str()),
            smtp_port: self.smtp_port,
            smtp_security: self.smtp_security.clone(),
            smtp_from: trim(self.smtp_from.as_str()),
            smtp_to: trim(self.smtp_to.as_str()),
            smtp_username: trim(self.smtp_username.as_str()),
            smtp_repeat_must_complete: self.smtp_repeat_must_complete,
            event_kind_defaults: copy_defaults(&self.event_kind_defaults),
        }
    }
}

/// Two lists of default plans hold the same entries.
pub open spec fn same_defaults(a: Seq<EventKindDefault>, b: Seq<EventKindDefault>) -> bool {
    a.len() == b.len() && forall|i: int|
        0 <= i < a.len() ==> (#[trigger] a[i]).event_kind@ == b[i].event_kind@ && a[i].reminder_plan@
            == b[i].reminder_plan@
}

/// A copy of a list of default plans.
pub fn copy_defaults(v: &Vec<EventKindDefault>) -> (r: Vec<EventKindDefault>)
    ensures
        same_defaults(r@, v@),
{
    let mut out: Vec<EventKindDefault> = Vec::new();
    let mut i: usize = 0;
    while i < v.len()
        invariant
            i <= v.len(),
            out@.len() == i,
            forall|k: int|
                0 <= k < i ==> (#[trigger] out@[k]).event_kind@ == v@[k].event_kind@
                    && out@[k].reminder_plan@ == v@[k].reminder_plan@,
        decreases v.len() - i,
    {
        out.push(kind_default(v[i].event_kind.as_str(), v[i].reminder_plan.as_str()));
        i = i + 1;
    }
    out
}

/// Each value is smaller than the next.
pub open spec fn strictly_increasing(s: Seq<u32>) -> bool {
    forall|i: int, j: int| 0 <= i < j < s.len() ==> s[i] < s[j]
}

/// The distinct values of `v` in increasing order (`sort_unstable` then
/// `dedup`).
pub fn sorted_unique(v: &Vec<u32>) -> (r: Vec<u32>)
    ensures
        strictly_increasing(r@),
        forall|d: u32| r@.contains(d) <==> v@.contains(d),
{
    let mut out: Vec<u32> = Vec::new();
    let mut i: usize = 0;
    while i < v.len()
        invariant
            i <= v.len(),
            strictly_increasing(out@),
            forall|d: u32| out@.contains(d) <==> v@.subrange(0, i as int).contains(d),
        decreases v.len() - i,
    {
        let x = v[i];
        let mut p: usize = 0;
        while p < out.len() && out[p] < x
            invariant
                p <= out.len(),
                forall|k: int| 0 <= k < p ==> out@[k] < x,
            decreases out.len() - p,
        {
            p = p + 1;
        }
        let ghost before = out@;
        if p < out.len() && out[p] == x {
            // already present
        } else {
            out.insert(p, x);
            assert forall|a: int, b: int| 0 <= a < b < out@.len() implies out@[a] < out@[b] by {
                if b < p {
                } else if a < p && b == p {
                } else if a < p {
                    assert(out@[b] == before[b - 1]);
                } else if a == p {
                    assert(out@[b] == before[b - 1]);
                    assert(before[p as int] > x || p == before.len());
                    if b - 1 > p {
                        assert(before[p as int] < before[b - 1]);
                    }
                } else {
                    assert(out@[a] == before[a - 1]);
                    assert(out@[b] == before[b - 1]);
                }
            }
        }
        proof {
            let pre = v@.subrange(0, i as int);
            let post = v@.subrange(0, i + 1);
            assert(post =~= pre.push(x));
            assert forall|d: u32| out@.contains(d) <==> post.contains(d) by {
                if out@.contains(d) {
                    let k = choose|k: int| 0 <= k < out@.len() && out@[k] == d;
                    if d != x {
                        if before.len() < out@.len() {
                            if k < p {
                                assert(before[k] == d);
                            } else {
                                assert(before[k - 1] == d);
                            }
                        }
                        assert(before.contains(d));
                        assert(pre.contains(d));
                        let m = choose|m: int| 0 <= m < pre.len() && pre[m] == d;
                        assert(post[m] == d);
                    } else {
                        assert(post[i as int] == x);
                    }
                }
                if post.contains(d) {
                    let m = choose|m: int| 0 <= m < post.len() && post[m] == d;
                    if m < i {
                        assert(pre[m] == d);
                        assert(before.contains(d));
                        let k = choose|k: int| 0 <= k < before.len() && before[k] == d;
                        if before.len() < out@.len() {
                            if k < p {
                                assert(out@[k] == d);
                            } else {
                                assert(out@[k + 1] == d);
                            }
                        } else {
                            assert(out@[k] == d);
                        }
                    } else {
                        assert(d == x);
                        if before.len() < out@.len() {
                            assert(out@[p as int] == x);
                        } else {
                            assert(out@[p as int] == x);
                        }
                    }
                }
            }
        }
        i = i + 1;
    }
    assert(v@.subrange(0, v@.len() as int) =~= v@);
    out
}

/// Lexicographic order of character sequences (the order of `String`).
pub open spec fn lex_le(a: Seq<char>, b: Seq<char>) -> bool
    decreases a.len(),
{
    if a.len() == 0 {
        true
    } else if b.len() == 0 {
        false
    } else if a[0] < b[0] {
        true
    } else if a[0] > b[0] {
        false
    } else {
        lex_le(a.drop_first(), b.drop_first())
    }
}

/// The lexicographic order is total.
pub proof fn lemma_lex_total(a: Seq<char>, b: Seq<char>)
    ensures
        lex_le(a, b) || lex_le(b, a),
    decreases a.len(),
{
    if a.len() > 0 && b.len() > 0 && a[0] == b[0] {
        lemma_lex_total(a.drop_first(), b.drop_first());
    }
}

/// The lexicographic order is antisymmetric.
pub proof fn lemma_lex_antisym(a: Seq<char>, b: Seq<char>)
    requires
        lex_le(a, b),
        lex_le(b, a),
    ensures
        a == b,
    decreases a.len(),
{
    if a.len() > 0 && b.len() > 0 {
        lemma_lex_antisym(a.drop_first(), b.drop_first());
        assert(a =~= seq![a[0]] + a.drop_first());
        assert(b =~= seq![b[0]] + b.drop_first());
    }
}

/// The lexicographic order is transitive.
pub proof fn lemma_lex_trans(a: Seq<char>, b: Seq<char>, c: Seq<char>)
    requires
        lex_le(a, b),
        lex_le(b, c),
    ensures
        lex_le(a, c),
    decreases a.len(),
{
    if a.len() > 0 && b.len() > 0 && c.len() > 0 && a[0] == b[0] && b[0] == c[0] {
        lemma_lex_trans(a.drop_first(), b.drop_first(), c.drop_first());
    }
}

/// Whether `a` comes no later than `b` in lexicographic order.
pub fn lex_le_exec(a: &Vec<char>, b: &Vec<char>) -> (r: bool)
    ensures
        r == lex_le(a@, b@),
{
    let mut i: usize = 0;
    assert(a@.subrange(0, a@.len() as int) =~= a@);
    assert(b@.subrange(0, b@.len() as int) =~= b@);
    while i < a.len() && i < b.len() && a[i] == b[i]
        invariant
            i <= a.len(),
            i <= b.len(),
            lex_le(a@, b@) == lex_le(a@.subrange(i as int, a@.len() as int), b@.subrange(
                i as int,
                b@.len() as int,
            )),
        decreases a.len() - i,
    {
        proof {
            let sa = a@.subrange(i as int, a@.len() as int);
            let sb = b@.subrange(i as int, b@.len() as int);
            assert(sa.drop_first() =~= a@.subrange(i + 1, a@.len() as int));
            assert(sb.drop_first() =~= b@.subrange(i + 1, b@.len() as int));
        }
        i = i + 1;
    }
    if i == a.len() {
        true
    } else if i == b.len() {
        false
    } else {
        a[i] < b[i]
    }
}

/// The character sequences of a list of strings.
pub open spec fn views_of(s: Seq<String>) -> Seq<Seq<char>> {
    s.map_values(|x: String| x@)
}

/// Each string comes no later than the next.
pub open spec fn views_sorted(s: Seq<String>) -> bool {
    forall|i: int| 0 <= i < s.len() - 1 ==> lex_le(#[trigger] s[i]@, s[i + 1]@)
}

/// The strings in lexicographic order (a stable insertion sort, giving what
/// `sort` gives).
pub fn sort_strings(v: &Vec<String>) -> (r: Vec<String>)
    ensures
        views_sorted(r@),
        views_of(r@).to_multiset() == views_of(v@).to_multiset(),
{
    broadcast use vstd::seq_lib::group_to_multiset_ensures;
    let mut out: Vec<String> = Vec::new();
    let mut out_chars: Vec<Vec<char>> = Vec::new();
    let mut i: usize = 0;
    while i < v.len()
        invariant
            i <= v.len(),
            out@.len() == out_chars@.len(),
            forall|k: int| 0 <= k < out@.len() ==> (#[trigger] out_chars@[k])@ == out@[k]@,
            views_sorted(out@),
            views_of(out@).to_multiset() == views_of(v@.subrange(0, i as int)).to_multiset(),
        decreases v.len() - i,
    {
        let x = v[i].clone();
        let xc = chars_of(x.as_str());
        let mut p: usize = 0;
        while p < out_chars.len() && lex_le_exec(&out_chars[p], &xc)
            invariant
                p <= out_chars@.len(),
                out@.len() == out_chars@.len(),
                forall|k: int| 0 <= k < out@.len() ==> (#[trigger] out_chars@[k])@ == out@[k]@,
                forall|k: int| 0 <= k < p ==> lex_le(#[trigger] out@[k]@, xc@),
            decreases out_chars.len() - p,
        {
            p = p + 1;
        }
        let ghost before = out@;
        proof {
            if p < before.len() {
                lemma_lex_total(before[p as int]@, xc@);
            }
        }
        out.insert(p, x);
        out_chars.insert(p, xc);
        proof {
            assert forall|a: int| 0 <= a < out@.len() - 1 implies lex_le(
                #[trigger] out@[a]@,
                out@[a + 1]@,
            ) by {
                if a + 1 < p {
                } else if a + 1 == p {
                } else if a == p {
                } else {
                    assert(out@[a] == before[a - 1]);
                    assert(out@[a + 1] == before[a]);
                }
            }
            assert forall|k: int| 0 <= k < out@.len() implies (#[trigger] out_chars@[k])@
                == out@[k]@ by {
                if k < p {
                } else if k == p {
                } else {
                }
            }
            let pre = v@.subrange(0, i as int);
            let post = v@.subrange(0, i + 1);
            assert(post =~= pre.push(v@[i as int]));
            assert(views_of(post) =~= views_of(pre).push(x@));
            assert(views_of(out@) =~= views_of(before).insert(p as int, x@));
            vstd::seq_lib::to_multiset_insert(views_of(before), p as int, x@);
            vstd::seq_lib::to_multiset_build(views_of(pre), x@);
        }
        i = i + 1;
    }
    assert(v@.subrange(0, v@.len() as int) =~= v@);
    out
}

} // verus!
