//! The Excel report: which items it lists, the text of each cell, and the
//! per-kind and per-category tallies. Writing the workbook file is left to
//! the spreadsheet library in the application.
use vstd::prelude::*;

use crate::clock::{
    chrono_format_ymd, chrono_rfc3339_instant, format_hm, format_ymd, hm_text, parse_rfc3339_instant,
    supported_local, to_local, LocalDateTime,
};
use crate::domain::{Item, Tag};
use crate::error::{validation, is_validation, AppResult};
use crate::mail::known_kind_label;
use crate::schedule::opt_view;
use crate::summary::lex_lt;
use crate::text::{owned, str_eq, trim_start_seq, u64_to_string, decimal_seq};

verus! {

/// Which items the report lists.
#[derive(Debug, Clone)]
pub struct ExportFilterInput {
    pub status: String,
    pub event_kind: Option<String>,
    pub category_id: Option<String>,
    pub tag_id: Option<String>,
    pub created_from: Option<String>,
    pub created_to: Option<String>,
}

// ---------------------------------------------------------------------------
// Filtering
// ---------------------------------------------------------------------------
/// `a` is no later than `b` (instants as whole seconds and nanoseconds).
pub open spec fn instant_le(a: (i64, u32), b: (i64, u32)) -> bool {
    a.0 < b.0 || (a.0 == b.0 && a.1 <= b.1)
}

/// A date boundary of the filter: absent, an instant, or unreadable.
pub open spec fn boundary(o: Option<String>) -> Result<Option<(i64, u32)>, ()> {
    match o {
        None => Ok(None),
        Some(x) => match chrono_rfc3339_instant(x@) {
            Some(t) => Ok(Some(t)),
            None => Err(()),
        },
    }
}

/// Why the filter cannot be used, if it cannot.
pub open spec fn filter_problem(f: ExportFilterInput) -> Option<Seq<char>> {
    if !(f.status@ == "all"@ || f.status@ == "open"@ || f.status@ == "done"@) {
        Some("导出状态筛选无效"@)
    } else if boundary(f.created_from) is Err || boundary(f.created_to) is Err {
        Some("导出日期筛选无效"@)
    } else if boundary(f.created_from) matches Ok(Some(from)) && boundary(f.created_to) matches Ok(Some(to))
        && !instant_le(from, to) {
        Some("导出开始日期不能晚于结束日期"@)
    } else {
        None
    }
}

/// The item carries a tag with this id.
pub open spec fn has_tag(tags: Seq<Tag>, id: Seq<char>) -> bool {
    exists|i: int| 0 <= i < tags.len() && (#[trigger] tags[i]).id@ == id
}

/// An optional filter value is absent, or equals the item's value.
pub open spec fn optional_match(filter: Option<String>, value: Option<String>) -> bool {
    match filter {
        None => true,
        Some(f) => value matches Some(v) && v@ == f@,
    }
}

/// The item passes every part of the filter.
pub open spec fn item_matches(
    item: Item,
    f: ExportFilterInput,
    from: Option<(i64, u32)>,
    to: Option<(i64, u32)>,
) -> bool {
    let created = chrono_rfc3339_instant(item.created_at@);
    &&& (f.status@ == "open"@ ==> item.status@ == "OPEN"@)
    &&& (f.status@ == "done"@ ==> item.status@ == "DONE"@)
    &&& optional_match(f.event_kind, item.event_kind)
    &&& optional_match(f.category_id, item.category_id)
    &&& (f.tag_id matches Some(id) ==> has_tag(item.tags@, id@))
    &&& (from matches Some(start) ==> created matches Some(c) && instant_le(start, c))
    &&& (to matches Some(end) ==> created matches Some(c) && instant_le(c, end))
}

/// The items that pass the filter, in their order.
pub open spec fn matching_items(
    items: Seq<Item>,
    f: ExportFilterInput,
    from: Option<(i64, u32)>,
    to: Option<(i64, u32)>,
) -> Seq<Item>
    decreases items.len(),
{
    if items.len() == 0 {
        Seq::empty()
    } else {
        let kept = matching_items(items.drop_last(), f, from, to);
        if item_matches(items.last(), f, from, to) {
            kept.push(items.last())
        } else {
            kept
        }
    }
}

/// What an exported item satisfies, part by part: the chosen status, the
/// named event kind, category and tag when the filter names them, and a
/// creation instant within the chosen range.
pub open spec fn fits_each_part(
    item: Item,
    f: ExportFilterInput,
    from: Option<(i64, u32)>,
    to: Option<(i64, u32)>,
) -> bool {
    &&& (f.status@ == "open"@ ==> item.status@ == "OPEN"@)
    &&& (f.status@ == "done"@ ==> item.status@ == "DONE"@)
    &&& (f.event_kind is Some ==> item.event_kind is Some && item.event_kind->0@ == f.event_kind->0@)
    &&& (f.category_id is Some ==> item.category_id is Some && item.category_id->0@
        == f.category_id->0@)
    &&& (f.tag_id is Some ==> exists|i: int|
        0 <= i < item.tags@.len() && (#[trigger] item.tags@[i]).id@ == f.tag_id->0@)
    &&& (from is Some ==> chrono_rfc3339_instant(item.created_at@) is Some && instant_le(
        from->0,
        chrono_rfc3339_instant(item.created_at@)->0,
    ))
    &&& (to is Some ==> chrono_rfc3339_instant(item.created_at@) is Some && instant_le(
        chrono_rfc3339_instant(item.created_at@)->0,
        to->0,
    ))
}

/// The report lists exactly the given items that fit every part of the
/// filter: each listed item is one of the given items and fits it (so an
/// item of another category, kind, status or tag is never listed), and
/// every given item that fits it is listed.
pub proof fn lemma_matching_items(
    items: Seq<Item>,
    f: ExportFilterInput,
    from: Option<(i64, u32)>,
    to: Option<(i64, u32)>,
)
    ensures
        forall|k: int|
            0 <= k < matching_items(items, f, from, to).len() ==> items.contains(
                #[trigger] matching_items(items, f, from, to)[k],
            ) && fits_each_part(matching_items(items, f, from, to)[k], f, from, to),
        forall|i: int|
            0 <= i < items.len() && fits_each_part(#[trigger] items[i], f, from, to)
                ==> matching_items(items, f, from, to).contains(items[i]),
    decreases items.len(),
{
    if items.len() > 0 {
        let rest = items.drop_last();
        lemma_matching_items(rest, f, from, to);
        let kept = matching_items(rest, f, from, to);
        let last = items.last();
        assert(item_matches(last, f, from, to) == fits_each_part(last, f, from, to));
        assert forall|k: int| 0 <= k < matching_items(items, f, from, to).len() implies items.contains(
            #[trigger] matching_items(items, f, from, to)[k],
        ) && fits_each_part(matching_items(items, f, from, to)[k], f, from, to) by {
            if k < kept.len() {
                assert(matching_items(items, f, from, to)[k] == kept[k]);
                let j = choose|j: int| 0 <= j < rest.len() && rest[j] == kept[k];
                assert(items[j] == rest[j]);
            } else {
                assert(items[items.len() - 1] == last);
            }
        }
        assert forall|i: int|
            0 <= i < items.len() && fits_each_part(#[trigger] items[i], f, from, to) implies matching_items(
            items,
            f,
            from,
            to,
        ).contains(items[i]) by {
            if i < items.len() - 1 {
                assert(rest[i] == items[i]);
                let j = choose|j: int| 0 <= j < kept.len() && kept[j] == items[i];
                if item_matches(last, f, from, to) {
                    assert(kept.push(last)[j] == items[i]);
                }
            } else {
                assert(items[i] == last);
                assert(matching_items(items, f, from, to) == kept.push(last));
                assert(kept.push(last)[kept.len() as int] == last);
            }
        }
    }
}

fn read_boundary(o: &Option<String>) -> (r: Result<Option<(i64, u32)>, ()>)
    ensures
        r == boundary(*o),
{
    match o {
        None => Ok(None),
        Some(x) => match parse_rfc3339_instant(x.as_str()) {
            Some(t) => Ok(Some(t)),
            None => Err(()),
        },
    }
}

fn optional_matches(filter: &Option<String>, value: &Option<String>) -> (r: bool)
    ensures
        r == optional_match(*filter, *value),
{
    match filter {
        None => true,
        Some(f) => match value {
            Some(v) => str_eq(v.as_str(), f.as_str()),
            None => false,
        },
    }
}

fn tags_contain(tags: &Vec<Tag>, id: &str) -> (r: bool)
    ensures
        r == has_tag(tags@, id@),
{
    let mut i: usize = 0;
    while i < tags.len()
        invariant
            i <= tags@.len(),
            forall|k: int| 0 <= k < i ==> (#[trigger] tags@[k]).id@ != id@,
        decreases tags@.len() - i,
    {
        if str_eq(tags[i].id.as_str(), id) {
            return true;
        }
        i = i + 1;
    }
    false
}

fn matches_filter(item: &Item, filter: &ExportFilterInput, from: Option<(i64, u32)>, to: Option<(i64, u32)>) -> (r:
    bool)
    ensures
        r == item_matches(*item, *filter, from, to),
        r == fits_each_part(*item, *filter, from, to),
{
    let status_ok = if str_eq(filter.status.as_str(), "open") {
        str_eq(item.status.as_str(), "OPEN")
    } else if str_eq(filter.status.as_str(), "done") {
        str_eq(item.status.as_str(), "DONE")
    } else {
        true
    };
    proof {
        reveal_strlit("open");
        reveal_strlit("done");
        assert("open"@[0] != "done"@[0]);
        assert("open"@ != "done"@);
    }
    let kind_ok = optional_matches(&filter.event_kind, &item.event_kind);
    let category_ok = optional_matches(&filter.category_id, &item.category_id);
    let tag_ok = match &filter.tag_id {
        None => true,
        Some(id) => tags_contain(&item.tags, id.as_str()),
    };
    let created = parse_rfc3339_instant(item.created_at.as_str());
    let after_start = match from {
        None => true,
        Some(start) => match created {
            Some(c) => start.0 < c.0 || (start.0 == c.0 && start.1 <= c.1),
            None => false,
        },
    };
    let before_end = match to {
        None => true,
        Some(end) => match created {
            Some(c) => c.0 < end.0 || (c.0 == end.0 && c.1 <= end.1),
            None => false,
        },
    };
    status_ok && kind_ok && category_ok && tag_ok && after_start && before_end
}

/// The items the report lists: those of the chosen status (all, open or
/// done), event kind, category and tag, created within the chosen range
/// (both ends included); refused when the status or a date cannot be read,
/// or the range ends before it starts.
pub fn filter_items(items: Vec<Item>, filter: &ExportFilterInput) -> (r: AppResult<Vec<Item>>)
    ensures
        match filter_problem(*filter) {
            Some(m) => r matches Err(e) && is_validation(e, m),
            None => r matches Ok(v) && v@ == matching_items(
                items@,
                *filter,
                boundary(filter.created_from)->Ok_0,
                boundary(filter.created_to)->Ok_0,
            ),
        },
        r matches Ok(v) ==> forall|k: int|
            0 <= k < v@.len() ==> items@.contains(#[trigger] v@[k]) && fits_each_part(
                v@[k],
                *filter,
                boundary(filter.created_from)->Ok_0,
                boundary(filter.created_to)->Ok_0,
            ),
        r matches Ok(v) ==> forall|i: int|
            0 <= i < items@.len() && fits_each_part(
                #[trigger] items@[i],
                *filter,
                boundary(filter.created_from)->Ok_0,
                boundary(filter.created_to)->Ok_0,
            ) ==> v@.contains(items@[i]),
{
    if !(str_eq(filter.status.as_str(), "all") || str_eq(filter.status.as_str(), "open") || str_eq(
        filter.status.as_str(),
        "done",
    )) {
        return Err(validation("导出状态筛选无效"));
    }
    let from = match read_boundary(&filter.created_from) {
        Ok(b) => b,
        Err(()) => return Err(validation("导出日期筛选无效")),
    };
    let to = match read_boundary(&filter.created_to) {
        Ok(b) => b,
        Err(()) => return Err(validation("导出日期筛选无效")),
    };
    match (from, to) {
        (Some(a), Some(b)) => {
            if !(a.0 < b.0 || (a.0 == b.0 && a.1 <= b.1)) {
                return Err(validation("导出开始日期不能晚于结束日期"));
            }
        },
        _ => {},
    }
    let ghost all = items@;
    let mut rest = items;
    let mut tail: Vec<Item> = Vec::new();
    while rest.len() > 0
        invariant
            matching_items(all, *filter, from, to) == matching_items(rest@, *filter, from, to) + tail@.reverse(),
        decreases rest@.len(),
    {
        let ghost before = rest@;
        let item = rest.pop().unwrap();
        assert(before.drop_last() =~= rest@);
        if matches_filter(&item, filter, from, to) {
            let ghost old_tail = tail@;
            tail.push(item);
            assert(tail@.reverse() =~= seq![before.last()] + old_tail.reverse());
            assert(matching_items(before, *filter, from, to) == matching_items(rest@, *filter, from, to).push(
                before.last(),
            ));
            assert(matching_items(rest@, *filter, from, to).push(before.last()) + old_tail.reverse()
                =~= matching_items(rest@, *filter, from, to) + tail@.reverse());
        }
    }
    assert(matching_items(rest@, *filter, from, to) =~= Seq::<Item>::empty());
    let mut out: Vec<Item> = Vec::new();
    let ghost want = tail@.reverse();
    while tail.len() > 0
        invariant
            want == out@ + tail@.reverse(),
        decreases tail@.len(),
    {
        let ghost before = tail@;
        let item = tail.pop().unwrap();
        assert(before.drop_last() =~= tail@);
        assert(before.reverse() =~= seq![item] + tail@.reverse());
        out.push(item);
        assert(out@ + tail@.reverse() =~= want);
    }
    assert(out@ =~= want);
    proof {
        lemma_matching_items(all, *filter, from, to);
    }
    Ok(out)
}

// ---------------------------------------------------------------------------
// Cell texts
// ---------------------------------------------------------------------------
/// A cell text that a spreadsheet would read as a formula (first visible
/// character `=`, `+`, `-` or `@`) gets a leading apostrophe.
pub open spec fn excel_safe_spec(value: Seq<char>) -> Seq<char> {
    let visible = trim_start_seq(value);
    if visible.len() > 0 && (visible[0] == '=' || visible[0] == '+' || visible[0] == '-' || visible[0] == '@') {
        seq!['\''] + value
    } else {
        value
    }
}

/// Makes user text safe to put in a spreadsheet cell.
pub fn excel_safe_text(value: &str) -> (r: String)
    ensures
        r@ == excel_safe_spec(value@),
{
    let chars = crate::text::chars_of(value);
    let mut i: usize = 0;
    assert(chars@.subrange(0, chars@.len() as int) =~= chars@);
    while i < chars.len() && crate::text::is_whitespace(chars[i])
        invariant
            i <= chars@.len(),
            chars@ == value@,
            trim_start_seq(value@) == trim_start_seq(chars@.subrange(i as int, chars@.len() as int)),
        decreases chars@.len() - i,
    {
        proof {
            let sub = chars@.subrange(i as int, chars@.len() as int);
            assert(sub.drop_first() =~= chars@.subrange(i + 1, chars@.len() as int));
        }
        i = i + 1;
    }
    proof {
        let sub = chars@.subrange(i as int, chars@.len() as int);
        if i < chars@.len() {
            assert(sub[0] == chars@[i as int]);
        }
    }
    if i < chars.len() && (chars[i] == '=' || chars[i] == '+' || chars[i] == '-' || chars[i] == '@') {
        let mut out = String::new();
        crate::text::push_char(&mut out, '\'');
        out.append(value);
        out
    } else {
        owned(value)
    }
}

/// The label of an item status.
pub open spec fn status_label_spec(status: Seq<char>) -> Seq<char> {
    if status == "OPEN"@ {
        "待处理"@
    } else if status == "DONE"@ {
        "已完成"@
    } else if status == "ARCHIVED"@ {
        "已归档"@
    } else if status == "DELETED"@ {
        "回收站"@
    } else {
        "未知"@
    }
}

/// The label of an item status.
pub fn status_label(status: &str) -> (r: &'static str)
    ensures
        r@ == status_label_spec(status@),
{
    if str_eq(status, "OPEN") {
        "待处理"
    } else if str_eq(status, "DONE") {
        "已完成"
    } else if str_eq(status, "ARCHIVED") {
        "已归档"
    } else if str_eq(status, "DELETED") {
        "回收站"
    } else {
        "未知"
    }
}

/// The label the report shows for an event kind: an unknown kind and a
/// missing kind read differently.
pub open spec fn report_kind_label(kind: Option<Seq<char>>) -> Seq<char> {
    match kind {
        Some(k) => match known_kind_label(k) {
            Some(label) => label,
            None => "未知类型"@,
        },
        None => "待选择事件类型"@,
    }
}

/// The label the report shows for an item's event kind.
pub fn event_kind_label(kind: &Option<String>) -> (r: &'static str)
    ensures
        r@ == report_kind_label(opt_view(*kind)),
{
    match kind {
        Some(k) => match crate::mail::known_kind_label_of(k.as_str()) {
            Some(label) => label,
            None => "未知类型",
        },
        None => "待选择事件类型",
    }
}

/// The label of a reminder plan.
pub open spec fn reminder_plan_label_spec(plan: Seq<char>) -> Seq<char> {
    if plan == "REPEAT"@ {
        "重复"@
    } else if plan == "EMPHASIS"@ {
        "强调"@
    } else if plan == "ONCE"@ {
        "一次性"@
    } else if plan == "FORCE"@ {
        "强制"@
    } else if plan == "CUSTOM"@ {
        "自定义"@
    } else {
        "未知方案"@
    }
}

/// The label of a reminder plan.
pub fn reminder_plan_label(plan: &str) -> (r: &'static str)
    ensures
        r@ == reminder_plan_label_spec(plan@),
{
    if str_eq(plan, "REPEAT") {
        "重复"
    } else if str_eq(plan, "EMPHASIS") {
        "强调"
    } else if str_eq(plan, "ONCE") {
        "一次性"
    } else if str_eq(plan, "FORCE") {
        "强制"
    } else if str_eq(plan, "CUSTOM") {
        "自定义"
    } else {
        "未知方案"
    }
}

/// Where an item's reminders stand.
pub open spec fn reminder_label_spec(item: Item) -> Seq<char> {
    if item.status@ != "OPEN"@ {
        "已停止"@
    } else if item.reminder_paused {
        "已暂停"@
    } else if item.next_reminder_at is Some {
        "等待提醒"@
    } else {
        "无提醒计划"@
    }
}

/// Where an item's reminders stand.
pub fn reminder_label(item: &Item) -> (r: &'static str)
    ensures
        r@ == reminder_label_spec(*item),
{
    if !str_eq(item.status.as_str(), "OPEN") {
        "已停止"
    } else if item.reminder_paused {
        "已暂停"
    } else if item.next_reminder_at.is_some() {
        "等待提醒"
    } else {
        "无提醒计划"
    }
}

/// A local moment as `YYYY-MM-DD HH:MM`.
pub open spec fn local_text_spec(l: LocalDateTime) -> Seq<char> {
    chrono_format_ymd(l.date.year, l.date.month, l.date.day) + seq![' '] + hm_text(l.seconds as int)
}

/// Writes a local moment as `YYYY-MM-DD HH:MM`.
pub fn local_text(l: LocalDateTime) -> (r: String)
    requires
        supported_local(l),
    ensures
        r@ == local_text_spec(l),
{
    let mut out = format_ymd(l.date);
    crate::text::push_char(&mut out, ' ');
    out.append(format_hm(l.seconds).as_str());
    out
}

/// How a stored instant is shown: in local time when it reads as an
/// instant (which local time depends on the machine's time zone), as stored
/// otherwise.
pub open spec fn shown_local(shown: Seq<char>, stored: Seq<char>) -> bool {
    match chrono_rfc3339_instant(stored) {
        None => shown == stored,
        Some(_) => exists|l: LocalDateTime| supported_local(l) && shown == local_text_spec(l),
    }
}

/// Shows a stored instant in local time, or as stored when it is not one.
pub fn local_datetime(value: &str) -> (r: String)
    ensures
        shown_local(r@, value@),
{
    match parse_rfc3339_instant(value) {
        Some((secs, _)) => {
            let l = to_local(secs);
            local_text(l)
        },
        None => owned(value),
    }
}

// ---------------------------------------------------------------------------
// Rows of the report
// ---------------------------------------------------------------------------
/// The names of an item's tags joined with `、`.
pub open spec fn tag_names(tags: Seq<Tag>) -> Seq<char>
    decreases tags.len(),
{
    if tags.len() == 0 {
        Seq::empty()
    } else if tags.len() == 1 {
        tags[0].name@
    } else {
        tag_names(tags.drop_last()) + "、"@ + tags.last().name@
    }
}

fn join_tag_names(tags: &Vec<Tag>) -> (r: String)
    ensures
        r@ == tag_names(tags@),
{
    let mut out = String::new();
    let mut i: usize = 0;
    while i < tags.len()
        invariant
            i <= tags@.len(),
            out@ == tag_names(tags@.subrange(0, i as int)),
        decreases tags@.len() - i,
    {
        proof {
            let next = tags@.subrange(0, i as int + 1);
            assert(next.drop_last() =~= tags@.subrange(0, i as int));
            assert(next.last() == tags@[i as int]);
        }
        if i > 0 {
            out.append("、");
        }
        out.append(tags[i].name.as_str());
        proof {
            if i == 0 {
                assert(out@ =~= tags@[0].name@);
            }
        }
        i = i + 1;
    }
    assert(tags@.subrange(0, tags@.len() as int) =~= tags@);
    out
}

/// An optional stored instant shown in local time, or nothing.
pub open spec fn shown_optional(shown: Seq<char>, stored: Option<String>) -> bool {
    match stored {
        None => shown.len() == 0,
        Some(s) => shown_local(shown, s@),
    }
}

fn optional_local(value: &Option<String>) -> (r: String)
    ensures
        shown_optional(r@, *value),
{
    match value {
        Some(v) => local_datetime(v.as_str()),
        None => String::new(),
    }
}

/// The sixteen cells of an item's row in the detail sheet.
pub open spec fn detail_row_spec(r: Seq<String>, item: Item) -> bool {
    &&& r.len() == 16
    &&& r[0]@ == excel_safe_spec(item.title@)
    &&& r[1]@ == excel_safe_spec(item.notes@)
    &&& r[2]@ == status_label_spec(item.status@)
    &&& r[3]@ == report_kind_label(opt_view(item.event_kind))
    &&& r[4]@ == match item.category_name {
        Some(c) => c@,
        None => "未分类"@,
    }
    &&& r[5]@ == if item.important {
        "是"@
    } else {
        "否"@
    }
    &&& r[6]@ == reminder_plan_label_spec(item.reminder_plan@)
    &&& r[7]@ == tag_names(item.tags@)
    &&& shown_local(r[8]@, item.created_at@)
    &&& r[9]@ == item.due_local_date@ + seq![' '] + item.due_local_time@
    &&& shown_optional(r[10]@, item.start_at)
    &&& shown_optional(r[11]@, item.end_at)
    &&& shown_optional(r[12]@, item.target_at)
    &&& shown_optional(r[13]@, item.completed_at)
    &&& r[14]@ == decimal_seq(item.rollover_count as nat)
    &&& r[15]@ == reminder_label_spec(item)
}

/// The cells of an item's row in the detail sheet.
pub fn detail_row(item: &Item) -> (r: Vec<String>)
    ensures
        detail_row_spec(r@, *item),
{
    let mut row: Vec<String> = Vec::new();
    row.push(excel_safe_text(item.title.as_str()));
    row.push(excel_safe_text(item.notes.as_str()));
    row.push(owned(status_label(item.status.as_str())));
    row.push(owned(event_kind_label(&item.event_kind)));
    row.push(
        match &item.category_name {
            Some(c) => owned(c.as_str()),
            None => owned("未分类"),
        },
    );
    row.push(
        if item.important {
            owned("是")
        } else {
            owned("否")
        },
    );
    row.push(owned(reminder_plan_label(item.reminder_plan.as_str())));
    row.push(join_tag_names(&item.tags));
    row.push(local_datetime(item.created_at.as_str()));
    let mut due = owned(item.due_local_date.as_str());
    crate::text::push_char(&mut due, ' ');
    due.append(item.due_local_time.as_str());
    row.push(due);
    row.push(optional_local(&item.start_at));
    row.push(optional_local(&item.end_at));
    row.push(optional_local(&item.target_at));
    row.push(optional_local(&item.completed_at));
    row.push(u64_to_string(item.rollover_count as u64));
    row.push(owned(reminder_label(item)));
    assert(row@.len() == 16);
    assert(row@[0]@ == excel_safe_spec(item.title@));
    assert(row@[4]@ == match item.category_name {
        Some(c) => c@,
        None => "未分类"@,
    });
    assert(row@[5]@ == if item.important {
        "是"@
    } else {
        "否"@
    });
    assert(shown_local(row@[8]@, item.created_at@));
    assert(row@[9]@ == item.due_local_date@ + seq![' '] + item.due_local_time@);
    assert(shown_optional(row@[10]@, item.start_at));
    assert(row@[14]@ == decimal_seq(item.rollover_count as nat));
    row
}

/// One line of a tally sheet: a name and how many items carry it, how many
/// of those are open, done, and must be completed today.
#[derive(Debug, Clone)]
pub struct Tally {
    pub name: String,
    pub total: u32,
    pub open: u32,
    pub done: u32,
    pub must_complete_today: u32,
}

/// What a tally line counts, as numbers.
pub open spec fn tally_counts(t: Tally) -> (Seq<char>, int, int, int, int) {
    (t.name@, t.total as int, t.open as int, t.done as int, t.must_complete_today as int)
}

/// How one item counts towards a tally: its name there, and whether it is
/// open, done, and must be completed today.
pub open spec fn mark_of(item: Item, by_kind: bool) -> (Seq<char>, bool, bool, bool) {
    (
        if by_kind {
            report_kind_label(opt_view(item.event_kind))
        } else {
            match item.category_name {
                Some(c) => c@,
                None => "未分类"@,
            }
        },
        item.status@ == "OPEN"@,
        item.status@ == "DONE"@,
        item.completion_policy@ == "MUST_COMPLETE_TODAY"@,
    )
}

/// 1 for `true`, 0 for `false`.
pub open spec fn flag(b: bool) -> int {
    if b {
        1
    } else {
        0
    }
}

/// Counts one more item into a tally kept in name order.
pub open spec fn tally_add(t: Seq<(Seq<char>, int, int, int, int)>, m: (Seq<char>, bool, bool, bool)) -> Seq<
    (Seq<char>, int, int, int, int),
>
    decreases t.len(),
{
    if t.len() == 0 {
        seq![(m.0, 1, flag(m.1), flag(m.2), flag(m.3))]
    } else if t[0].0 == m.0 {
        seq![(m.0, t[0].1 + 1, t[0].2 + flag(m.1), t[0].3 + flag(m.2), t[0].4 + flag(m.3))] + t.drop_first()
    } else if lex_lt(m.0, t[0].0) {
        seq![(m.0, 1, flag(m.1), flag(m.2), flag(m.3))] + t
    } else {
        seq![t[0]] + tally_add(t.drop_first(), m)
    }
}

/// The tally of a list of items, in name order.
pub open spec fn tally_of(items: Seq<Item>, by_kind: bool) -> Seq<(Seq<char>, int, int, int, int)>
    decreases items.len(),
{
    if items.len() == 0 {
        Seq::empty()
    } else {
        tally_add(tally_of(items.drop_last(), by_kind), mark_of(items.last(), by_kind))
    }
}

/// The names of a tally run in strictly increasing order.
pub open spec fn tally_sorted(t: Seq<(Seq<char>, int, int, int, int)>) -> bool {
    forall|i: int, j: int| 0 <= i < j < t.len() ==> lex_lt(#[trigger] t[i].0, #[trigger] t[j].0)
}

/// Every count of the tally is at most `n`.
pub open spec fn tally_bounded(t: Seq<(Seq<char>, int, int, int, int)>, n: int) -> bool {
    forall|i: int|
        0 <= i < t.len() ==> 0 <= (#[trigger] t[i]).1 <= n && 0 <= t[i].2 <= n && 0 <= t[i].3 <= n && 0 <= t[i].4 <= n
}

/// How many items a tally counts in all.
pub open spec fn tally_total(t: Seq<(Seq<char>, int, int, int, int)>) -> int
    decreases t.len(),
{
    if t.len() == 0 {
        0
    } else {
        t[0].1 + tally_total(t.drop_first())
    }
}

proof fn lemma_tally_add_at(
    t: Seq<(Seq<char>, int, int, int, int)>,
    m: (Seq<char>, bool, bool, bool),
    i: int,
)
    requires
        tally_sorted(t),
        0 <= i <= t.len(),
        forall|j: int| 0 <= j < i ==> lex_lt(#[trigger] t[j].0, m.0),
        i < t.len() ==> crate::domain::lex_le(m.0, t[i].0),
    ensures
        i < t.len() && t[i].0 == m.0 ==> tally_add(t, m) == t.update(
            i,
            (m.0, t[i].1 + 1, t[i].2 + flag(m.1), t[i].3 + flag(m.2), t[i].4 + flag(m.3)),
        ),
        !(i < t.len() && t[i].0 == m.0) ==> tally_add(t, m) == t.subrange(0, i).push(
            (m.0, 1, flag(m.1), flag(m.2), flag(m.3)),
        ) + t.subrange(i, t.len() as int),
    decreases t.len(),
{
    let one = (m.0, 1, flag(m.1), flag(m.2), flag(m.3));
    if t.len() == 0 {
        assert(t.subrange(0, 0).push(one) + t.subrange(0, 0) =~= seq![one]);
    } else if i == 0 {
        if t[0].0 == m.0 {
            assert(seq![(m.0, t[0].1 + 1, t[0].2 + flag(m.1), t[0].3 + flag(m.2), t[0].4 + flag(m.3))]
                + t.drop_first() =~= t.update(
                0,
                (m.0, t[0].1 + 1, t[0].2 + flag(m.1), t[0].3 + flag(m.2), t[0].4 + flag(m.3)),
            ));
        } else {
            assert(t.subrange(0, 0).push(one) + t.subrange(0, t.len() as int) =~= seq![one] + t);
        }
    } else {
        let rest = t.drop_first();
        assert(lex_lt(t[0].0, m.0));
        if lex_lt(m.0, t[0].0) {
            crate::domain::lemma_lex_antisym(m.0, t[0].0);
        }
        assert forall|a: int, b: int| 0 <= a < b < rest.len() implies lex_lt(#[trigger] rest[a].0, #[trigger] rest[b].0) by {
            assert(rest[a] == t[a + 1] && rest[b] == t[b + 1]);
        }
        assert forall|j: int| 0 <= j < i - 1 implies lex_lt(#[trigger] rest[j].0, m.0) by {
            assert(rest[j] == t[j + 1]);
        }
        lemma_tally_add_at(rest, m, i - 1);
        if i < t.len() && t[i].0 == m.0 {
            assert(seq![t[0]] + rest.update(
                i - 1,
                (m.0, t[i].1 + 1, t[i].2 + flag(m.1), t[i].3 + flag(m.2), t[i].4 + flag(m.3)),
            ) =~= t.update(i, (m.0, t[i].1 + 1, t[i].2 + flag(m.1), t[i].3 + flag(m.2), t[i].4 + flag(m.3))));
        } else {
            assert(seq![t[0]] + (rest.subrange(0, i - 1).push(one) + rest.subrange(i - 1, rest.len() as int))
                =~= t.subrange(0, i).push(one) + t.subrange(i, t.len() as int));
        }
    }
}

proof fn lemma_tally_add_props(t: Seq<(Seq<char>, int, int, int, int)>, m: (Seq<char>, bool, bool, bool), n: int)
    requires
        tally_sorted(t),
        tally_bounded(t, n),
        0 <= n,
    ensures
        tally_sorted(tally_add(t, m)),
        tally_bounded(tally_add(t, m), n + 1),
        tally_total(tally_add(t, m)) == tally_total(t) + 1,
        forall|j: int|
            0 <= j < tally_add(t, m).len() ==> ((#[trigger] tally_add(t, m)[j]).0 == m.0 || exists|k: int|
                0 <= k < t.len() && t[k].0 == tally_add(t, m)[j].0),
    decreases t.len(),
{
    let r = tally_add(t, m);
    if t.len() == 0 {
        assert(tally_total(r) == r[0].1 + tally_total(r.drop_first()));
        assert(r.drop_first().len() == 0);
    } else if t[0].0 == m.0 {
        assert(r.drop_first() =~= t.drop_first());
        assert forall|a: int, b: int| 0 <= a < b < r.len() implies lex_lt(#[trigger] r[a].0, #[trigger] r[b].0) by {
            assert(r[b] == t[b]);
            if a > 0 {
                assert(r[a] == t[a]);
            }
        }
        assert forall|j: int| 0 <= j < r.len() implies ((#[trigger] r[j]).0 == m.0 || exists|k: int|
            0 <= k < t.len() && t[k].0 == r[j].0) by {
            if j > 0 {
                assert(r[j] == t[j]);
            }
        }
        assert forall|j: int| 0 <= j < r.len() implies 0 <= (#[trigger] r[j]).1 <= n + 1 && 0 <= r[j].2 <= n + 1
            && 0 <= r[j].3 <= n + 1 && 0 <= r[j].4 <= n + 1 by {
            if j > 0 {
                assert(r[j] == t[j]);
            }
        }
    } else if lex_lt(m.0, t[0].0) {
        assert(r.drop_first() =~= t);
        assert forall|a: int, b: int| 0 <= a < b < r.len() implies lex_lt(#[trigger] r[a].0, #[trigger] r[b].0) by {
            assert(r[b] == t[b - 1]);
            if a > 0 {
                assert(r[a] == t[a - 1]);
            } else if b - 1 > 0 {
                lemma_lex_lt_chain(m.0, t[0].0, t[b - 1].0);
            }
        }
        assert forall|j: int| 0 <= j < r.len() implies ((#[trigger] r[j]).0 == m.0 || exists|k: int|
            0 <= k < t.len() && t[k].0 == r[j].0) by {
            if j > 0 {
                assert(r[j] == t[j - 1]);
            }
        }
        assert forall|j: int| 0 <= j < r.len() implies 0 <= (#[trigger] r[j]).1 <= n + 1 && 0 <= r[j].2 <= n + 1
            && 0 <= r[j].3 <= n + 1 && 0 <= r[j].4 <= n + 1 by {
            if j > 0 {
                assert(r[j] == t[j - 1]);
            }
        }
    } else {
        let rest = t.drop_first();
        assert forall|a: int, b: int| 0 <= a < b < rest.len() implies lex_lt(#[trigger] rest[a].0, #[trigger] rest[b].0) by {
            assert(rest[a] == t[a + 1] && rest[b] == t[b + 1]);
        }
        assert forall|j: int| 0 <= j < rest.len() implies 0 <= (#[trigger] rest[j]).1 <= n && 0 <= rest[j].2 <= n
            && 0 <= rest[j].3 <= n && 0 <= rest[j].4 <= n by {
            assert(rest[j] == t[j + 1]);
        }
        lemma_tally_add_props(rest, m, n);
        let rr = tally_add(rest, m);
        assert(r.drop_first() =~= rr);
        crate::domain::lemma_lex_total(m.0, t[0].0);
        assert(lex_lt(t[0].0, m.0));
        assert forall|a: int, b: int| 0 <= a < b < r.len() implies lex_lt(#[trigger] r[a].0, #[trigger] r[b].0) by {
            assert(r[b] == rr[b - 1]);
            if a > 0 {
                assert(r[a] == rr[a - 1]);
            } else if rr[b - 1].0 != m.0 {
                let k = choose|k: int| 0 <= k < rest.len() && rest[k].0 == rr[b - 1].0;
                assert(rest[k] == t[k + 1]);
            }
        }
        assert forall|j: int| 0 <= j < r.len() implies ((#[trigger] r[j]).0 == m.0 || exists|k: int|
            0 <= k < t.len() && t[k].0 == r[j].0) by {
            if j > 0 {
                assert(r[j] == rr[j - 1]);
                if rr[j - 1].0 != m.0 {
                    let k = choose|k: int| 0 <= k < rest.len() && rest[k].0 == rr[j - 1].0;
                    assert(rest[k] == t[k + 1]);
                }
            }
        }
        assert forall|j: int| 0 <= j < r.len() implies 0 <= (#[trigger] r[j]).1 <= n + 1 && 0 <= r[j].2 <= n + 1
            && 0 <= r[j].3 <= n + 1 && 0 <= r[j].4 <= n + 1 by {
            if j > 0 {
                assert(r[j] == rr[j - 1]);
            }
        }
    }
}

proof fn lemma_lex_lt_chain(a: Seq<char>, b: Seq<char>, c: Seq<char>)
    requires
        lex_lt(a, b),
        lex_lt(b, c),
    ensures
        lex_lt(a, c),
{
    crate::domain::lemma_lex_trans(a, b, c);
    if a == c {
        crate::domain::lemma_lex_antisym(a, b);
    }
}

/// The tally of a list runs in strictly increasing name order, counts every
/// item exactly once, and no count exceeds the number of items.
pub proof fn lemma_tally_counts_every_item_once(items: Seq<Item>, by_kind: bool)
    ensures
        tally_sorted(tally_of(items, by_kind)),
        tally_bounded(tally_of(items, by_kind), items.len() as int),
        tally_total(tally_of(items, by_kind)) == items.len(),
    decreases items.len(),
{
    if items.len() > 0 {
        lemma_tally_counts_every_item_once(items.drop_last(), by_kind);
        lemma_tally_add_props(tally_of(items.drop_last(), by_kind), mark_of(items.last(), by_kind), items.len() - 1);
    }
}

fn item_mark(item: &Item, by_kind: bool) -> (r: (String, bool, bool, bool))
    ensures
        (r.0@, r.1, r.2, r.3) == mark_of(*item, by_kind),
{
    let name = if by_kind {
        owned(event_kind_label(&item.event_kind))
    } else {
        match &item.category_name {
            Some(c) => owned(c.as_str()),
            None => owned("未分类"),
        }
    };
    (
        name,
        str_eq(item.status.as_str(), "OPEN"),
        str_eq(item.status.as_str(), "DONE"),
        str_eq(item.completion_policy.as_str(), "MUST_COMPLETE_TODAY"),
    )
}

fn one_if(b: bool) -> (r: u32)
    ensures
        r == flag(b),
{
    if b {
        1
    } else {
        0
    }
}

/// The tally of the items by event kind label (`by_kind`) or by category
/// name, in name order.
pub fn tally_items(items: &[Item], by_kind: bool) -> (r: Vec<Tally>)
    requires
        items@.len() <= u32::MAX,
    ensures
        r@.map_values(|t: Tally| tally_counts(t)) == tally_of(items@, by_kind),
{
    let mut table: Vec<Tally> = Vec::new();
    let mut i: usize = 0;
    while i < items.len()
        invariant
            i <= items@.len(),
            items@.len() <= u32::MAX,
            table@.map_values(|t: Tally| tally_counts(t)) == tally_of(items@.subrange(0, i as int), by_kind),
            tally_sorted(tally_of(items@.subrange(0, i as int), by_kind)),
            tally_bounded(tally_of(items@.subrange(0, i as int), by_kind), i as int),
        decreases items@.len() - i,
    {
        let ghost view = table@.map_values(|t: Tally| tally_counts(t));
        let ghost before = tally_of(items@.subrange(0, i as int), by_kind);
        let (name, open, done, must) = item_mark(&items[i], by_kind);
        let ghost m = mark_of(items@[i as int], by_kind);
        proof {
            let next = items@.subrange(0, i as int + 1);
            assert(next.drop_last() =~= items@.subrange(0, i as int));
            assert(next.last() == items@[i as int]);
            lemma_tally_add_props(before, m, i as int);
        }
        let name_chars = crate::text::chars_of(name.as_str());
        let mut k: usize = 0;
        while k < table.len()
            invariant
                k <= table@.len(),
                view == table@.map_values(|t: Tally| tally_counts(t)),
                view == before,
                tally_sorted(before),
                name_chars@ == m.0,
                forall|j: int| 0 <= j < k ==> lex_lt(#[trigger] before[j].0, m.0),
            ensures
                k <= table@.len(),
                forall|j: int| 0 <= j < k ==> lex_lt(#[trigger] before[j].0, m.0),
                k < table@.len() ==> crate::domain::lex_le(m.0, before[k as int].0),
            decreases table@.len() - k,
        {
            let here = crate::text::chars_of(table[k].name.as_str());
            assert(before[k as int].0 == table@[k as int].name@);
            if crate::domain::lex_le_exec(&name_chars, &here) {
                break;
            }
            proof {
                crate::domain::lemma_lex_total(m.0, before[k as int].0);
                crate::domain::lemma_lex_total(m.0, m.0);
            }
            k = k + 1;
        }
        proof {
            lemma_tally_add_at(before, m, k as int);
        }
        if k < table.len() && str_eq(table[k].name.as_str(), name.as_str()) {
            assert(before[k as int].1 <= i && before[k as int].2 <= i && before[k as int].3 <= i && before[k as int].4 <= i);
            let updated = Tally {
                name,
                total: table[k].total + 1,
                open: table[k].open + one_if(open),
                done: table[k].done + one_if(done),
                must_complete_today: table[k].must_complete_today + one_if(must),
            };
            table.set(k, updated);
        } else {
            let fresh = Tally {
                name,
                total: 1,
                open: one_if(open),
                done: one_if(done),
                must_complete_today: one_if(must),
            };
            table.insert(k, fresh);
        }
        proof {
            let after = table@.map_values(|t: Tally| tally_counts(t));
            let target = tally_add(before, m);
            assert(after =~= target);
        }
        i = i + 1;
    }
    assert(items@.subrange(0, items@.len() as int) =~= items@);
    table
}

/// What the report holds: the detail rows, then the tallies by event kind and
/// by category.
#[derive(Debug)]
pub struct ReportSheets {
    pub detail: Vec<Vec<String>>,
    pub kinds: Vec<Tally>,
    pub categories: Vec<Tally>,
}

/// The contents of the report for the listed items.
pub fn report_sheets(items: &[Item]) -> (r: ReportSheets)
    requires
        items@.len() <= u32::MAX,
    ensures
        r.detail@.len() == items@.len(),
        forall|i: int| 0 <= i < items@.len() ==> detail_row_spec((#[trigger] r.detail@[i])@, items@[i]),
        r.kinds@.map_values(|t: Tally| tally_counts(t)) == tally_of(items@, true),
        r.categories@.map_values(|t: Tally| tally_counts(t)) == tally_of(items@, false),
{
    let mut detail: Vec<Vec<String>> = Vec::new();
    let mut i: usize = 0;
    while i < items.len()
        invariant
            i <= items@.len(),
            detail@.len() == i,
            forall|k: int| 0 <= k < i ==> detail_row_spec((#[trigger] detail@[k])@, items@[k]),
        decreases items@.len() - i,
    {
        detail.push(detail_row(&items[i]));
        i = i + 1;
    }
    ReportSheets { detail, kinds: tally_items(items, true), categories: tally_items(items, false) }
}

/// How one sheet of the report is laid out: its name, its header row, the
/// width of each column in characters, and, for a tally sheet, whether it has
/// the "today must" column.
#[derive(Debug)]
pub struct SheetLayout {
    pub name: String,
    pub headers: Vec<String>,
    pub widths: Vec<u32>,
    pub with_must: bool,
}

/// The header row of the detail sheet.
pub open spec fn detail_headers() -> Seq<Seq<char>> {
    seq![
        "事项内容"@, "备注"@, "状态"@, "事件类型"@, "类型"@, "重要"@, "提醒方案"@, "标签"@,
        "创建时间（本地）"@, "当前到期时间（本地）"@, "开始时间（本地）"@, "结束时间（本地）"@,
        "预警目标（本地）"@, "完成时间（本地）"@, "顺延次数"@, "提醒状态"@,
    ]
}

/// The column widths of the detail sheet.
pub open spec fn detail_widths() -> Seq<u32> {
    seq![35, 30, 10, 12, 12, 9, 12, 22, 20, 20, 20, 20, 20, 20, 10, 16]
}

/// The header row of a tally sheet whose first column is `first`.
pub open spec fn tally_headers(first: Seq<char>, with_must: bool) -> Seq<Seq<char>> {
    let base = seq![first, "事项数"@, "待处理"@, "已完成"@];
    if with_must {
        base.push("今日必做"@)
    } else {
        base
    }
}

/// The column widths of a tally sheet: the name, then the counts.
pub open spec fn tally_widths(with_must: bool) -> Seq<u32> {
    if with_must {
        seq![24, 12, 12, 12, 12]
    } else {
        seq![24, 12, 12, 12]
    }
}

/// The texts of a list of strings.
pub open spec fn texts_of(v: Seq<String>) -> Seq<Seq<char>> {
    v.map_values(|x: String| x@)
}

fn strings_of(values: &[&str]) -> (r: Vec<String>)
    ensures
        r@.len() == values@.len(),
        forall|i: int| 0 <= i < values@.len() ==> (#[trigger] r@[i])@ == values@[i]@,
{
    let mut out: Vec<String> = Vec::new();
    let mut i: usize = 0;
    while i < values.len()
        invariant
            i <= values@.len(),
            out@.len() == i,
            forall|k: int| 0 <= k < i ==> (#[trigger] out@[k])@ == values@[k]@,
        decreases values@.len() - i,
    {
        out.push(owned(values[i]));
        i = i + 1;
    }
    out
}

/// The layout of the report's three sheets: the item details, the tally by
/// event kind (with the "today must" column) and the tally by category.
pub fn report_layouts() -> (r: Vec<SheetLayout>)
    ensures
        r@.len() == 3,
        r@[0].name@ == "事项明细"@ && texts_of(r@[0].headers@) == detail_headers() && r@[0].widths@
            == detail_widths() && !r@[0].with_must,
        r@[1].name@ == "事件类型汇总"@ && texts_of(r@[1].headers@) == tally_headers("事件类型"@, true)
            && r@[1].widths@ == tally_widths(true) && r@[1].with_must,
        r@[2].name@ == "类型汇总"@ && texts_of(r@[2].headers@) == tally_headers("类型"@, false)
            && r@[2].widths@ == tally_widths(false) && !r@[2].with_must,
{
    let detail = strings_of(
        &[
            "事项内容", "备注", "状态", "事件类型", "类型", "重要", "提醒方案", "标签", "创建时间（本地）",
            "当前到期时间（本地）", "开始时间（本地）", "结束时间（本地）", "预警目标（本地）",
            "完成时间（本地）", "顺延次数", "提醒状态",
        ],
    );
    let kinds = strings_of(&["事件类型", "事项数", "待处理", "已完成", "今日必做"]);
    let categories = strings_of(&["类型", "事项数", "待处理", "已完成"]);
    assert(texts_of(detail@) =~= detail_headers());
    assert(texts_of(kinds@) =~= tally_headers("事件类型"@, true));
    assert(texts_of(categories@) =~= tally_headers("类型"@, false));
    let detail_width: Vec<u32> = vec![35, 30, 10, 12, 12, 9, 12, 22, 20, 20, 20, 20, 20, 20, 10, 16];
    assert(detail_width@ =~= detail_widths());
    let kind_width: Vec<u32> = vec![24, 12, 12, 12, 12];
    assert(kind_width@ =~= tally_widths(true));
    let category_width: Vec<u32> = vec![24, 12, 12, 12];
    assert(category_width@ =~= tally_widths(false));
    let mut out: Vec<SheetLayout> = Vec::new();
    out.push(SheetLayout { name: owned("事项明细"), headers: detail, widths: detail_width, with_must: false });
    out.push(SheetLayout { name: owned("事件类型汇总"), headers: kinds, widths: kind_width, with_must: true });
    out.push(SheetLayout { name: owned("类型汇总"), headers: categories, widths: category_width, with_must: false });
    out
}

/// The counts of a tally line in column order after its name: total, open,
/// done and, with the "today must" column, the "today must" count.
pub fn tally_cells(t: &Tally, with_must: bool) -> (r: Vec<u32>)
    ensures
        r@ == (if with_must {
            seq![t.total, t.open, t.done, t.must_complete_today]
        } else {
            seq![t.total, t.open, t.done]
        }),
{
    let mut out: Vec<u32> = vec![t.total, t.open, t.done];
    if with_must {
        out.push(t.must_complete_today);
    }
    assert(out@ =~= (if with_must {
        seq![t.total, t.open, t.done, t.must_complete_today]
    } else {
        seq![t.total, t.open, t.done]
    }));
    out
}

/// Where the report may be written: a path whose extension is exactly
/// `xlsx`, in a folder that exists.  `parent_is_dir` tells whether the
/// path's folder exists (`None` when the path has no folder).
pub fn check_export_path(path: &str, parent_is_dir: Option<bool>) -> (r: AppResult<()>)
    ensures
        crate::summary::std_path_extension(path@) != Some("xlsx"@) ==> (r matches Err(e)
            && is_validation(e, "导出文件需要使用 .xlsx 扩展名"@)),
        crate::summary::std_path_extension(path@) == Some("xlsx"@) ==> match parent_is_dir {
            None => r matches Err(e) && is_validation(e, "导出位置无效"@),
            Some(false) => r matches Err(e) && is_validation(e, "导出文件夹不存在，请重新选择位置"@),
            Some(true) => r is Ok,
        },
{
    let xlsx = match crate::summary::path_extension(path) {
        Some(e) => str_eq(e.as_str(), "xlsx"),
        None => false,
    };
    if !xlsx {
        return Err(validation("导出文件需要使用 .xlsx 扩展名"));
    }
    match parent_is_dir {
        None => Err(validation("导出位置无效")),
        Some(false) => Err(validation("导出文件夹不存在，请重新选择位置")),
        Some(true) => Ok(()),
    }
}

} // verus!
