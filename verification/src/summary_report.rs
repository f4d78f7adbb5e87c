//! The figures and rows of a period summary: which items were done, which
//! are still open or overdue, the completion rate, the sentence that sums
//! the period up, and the rows of its tables.
use vstd::prelude::*;

use crate::clock::{chrono_format_ymd, chrono_rfc3339_seconds, format_hm, format_ymd, hm_text,
    parse_rfc3339, supported_local, to_local, LocalDateTime};
use crate::domain::{lex_le, Item};
use crate::summary::{pairs_insert, FieldMap};
use crate::text::{concat, decimal_seq, owned, str_eq, u64_to_string};

verus! {

// ---------------------------------------------------------------------------
// Labels
// ---------------------------------------------------------------------------
/// The name of an event kind in a summary; an item without a kind waits for
/// one.
pub open spec fn summary_kind_label_spec(kind: Option<Seq<char>>) -> Seq<char> {
    match kind {
        Some(k) => if k == "ORDINARY"@ {
            "普通"@
        } else if k == "ONE_TIME"@ {
            "一次性"@
        } else if k == "TODAY_MUST"@ {
            "今日必做"@
        } else if k == "WARNING"@ {
            "预警"@
        } else if k == "CONTINUOUS"@ {
            "持续"@
        } else if k == "MONTHLY"@ {
            "月度"@
        } else if k == "YEARLY"@ {
            "年度"@
        } else {
            "待选择"@
        },
        None => "待选择"@,
    }
}

/// The name of an event kind in a summary.
pub fn summary_kind_label(kind: Option<&str>) -> (r: &'static str)
    ensures
        r@ == summary_kind_label_spec(
            match kind {
                Some(k) => Some(k@),
                None => None,
            },
        ),
{
    match kind {
        Some(k) => if str_eq(k, "ORDINARY") {
            "普通"
        } else if str_eq(k, "ONE_TIME") {
            "一次性"
        } else if str_eq(k, "TODAY_MUST") {
            "今日必做"
        } else if str_eq(k, "WARNING") {
            "预警"
        } else if str_eq(k, "CONTINUOUS") {
            "持续"
        } else if str_eq(k, "MONTHLY") {
            "月度"
        } else if str_eq(k, "YEARLY") {
            "年度"
        } else {
            "待选择"
        },
        None => "待选择",
    }
}

/// `text` is a stored time written as local `YYYY-MM-DD HH:MM` (at some
/// local moment, as the time zone shows it), or empty when there is no
/// time or it cannot be read.
pub open spec fn local_minute_ok(value: Option<Seq<char>>, text: Seq<char>) -> bool {
    match value {
        None => text.len() == 0,
        Some(v) => match chrono_rfc3339_seconds(v) {
            None => text.len() == 0,
            Some(_) => exists|l: LocalDateTime|
                supported_local(l) && text == chrono_format_ymd(l.date.year, l.date.month, l.date.day)
                    + " "@ + #[trigger] hm_text(l.seconds as int),
        },
    }
}

/// A stored time as local `YYYY-MM-DD HH:MM`; empty when there is none or
/// it cannot be read.  (Which local moment it shows depends on the
/// machine's time zone.)
pub fn local_minute_text(value: Option<&str>) -> (r: String)
    ensures
        local_minute_ok(
            match value {
                Some(v) => Some(v@),
                None => None,
            },
            r@,
        ),
{
    let empty = String::new();
    match value {
        None => empty,
        Some(v) => match parse_rfc3339(v) {
            None => empty,
            Some(secs) => {
                let local = to_local(secs);
                let d = format_ymd(local.date);
                let t = format_hm(local.seconds);
                let a = concat(d.as_str(), " ");
                concat(a.as_str(), t.as_str())
            },
        },
    }
}

/// How an item stands in a summary made at `now_text`: done, overdue (its
/// due time is before now, compared as text), or still to do.
pub open spec fn row_status_spec(item: Item, now_text: Seq<char>) -> Seq<char> {
    if item.status@ == "DONE"@ {
        "已完成"@
    } else if !lex_le(now_text, item.due_at@) {
        "已逾期"@
    } else {
        "待处理"@
    }
}

/// The row of one item in a summary's item tables: its title, kind,
/// completion time, due date and time, and standing.
pub fn item_row(item: &Item, now_text: &str) -> (r: FieldMap)
    ensures
        row_of(r, *item, now_text@),
{
    let mut row = FieldMap::new();
    row.insert(owned("title"), item.title.clone());
    let kind = match &item.event_kind {
        Some(k) => Some(k.as_str()),
        None => None,
    };
    row.insert(owned("event_kind"), owned(summary_kind_label(kind)));
    let completed = match &item.completed_at {
        Some(c) => Some(c.as_str()),
        None => None,
    };
    let completed_text = local_minute_text(completed);
    let ghost completed_view = completed_text@;
    row.insert(owned("completed_at"), completed_text);
    let a = concat(item.due_local_date.as_str(), " ");
    row.insert(owned("due_at"), concat(a.as_str(), item.due_local_time.as_str()));
    let status = if str_eq(item.status.as_str(), "DONE") {
        "已完成"
    } else if !crate::item_rules::text_le(now_text, item.due_at.as_str()) {
        "已逾期"
    } else {
        "待处理"
    };
    row.insert(owned("status"), owned(status));
    assert(row.pairs() == item_row_spec(*item, now_text@, completed_view));
    row
}

/// The map is the row of `item` in a summary made at `now_text`, with some
/// local reading of its completion time.
pub open spec fn row_of(f: FieldMap, item: Item, now_text: Seq<char>) -> bool {
    exists|completed: Seq<char>|
        local_minute_ok(crate::schedule::opt_view(item.completed_at), completed) && f.pairs()
            == #[trigger] item_row_spec(item, now_text, completed)
}

/// The entries of an item's row, with `completed` as its completion text.
pub open spec fn item_row_spec(item: Item, now_text: Seq<char>, completed: Seq<char>) -> Seq<
    (Seq<char>, Seq<char>),
> {
    pairs_insert(
        pairs_insert(
            pairs_insert(
                pairs_insert(
                    pairs_insert(Seq::empty(), "title"@, item.title@),
                    "event_kind"@,
                    summary_kind_label_spec(crate::schedule::opt_view(item.event_kind)),
                ),
                "completed_at"@,
                completed,
            ),
            "due_at"@,
            item.due_local_date@ + " "@ + item.due_local_time@,
        ),
        "status"@,
        row_status_spec(item, now_text),
    )
}


// ---------------------------------------------------------------------------
// Counting
// ---------------------------------------------------------------------------
/// The positions, in order, of the items that satisfy `p`.
pub open spec fn indices_where(items: Seq<Item>, p: spec_fn(Item) -> bool) -> Seq<usize>
    decreases items.len(),
{
    if items.len() == 0 {
        Seq::empty()
    } else {
        let rest = indices_where(items.drop_last(), p);
        if p(items.last()) {
            rest.push((items.len() - 1) as usize)
        } else {
            rest
        }
    }
}

/// The item is done.
pub open spec fn is_done(i: Item) -> bool {
    i.status@ == "DONE"@
}

/// The item is open.
pub open spec fn is_open(i: Item) -> bool {
    i.status@ == "OPEN"@
}

/// The item is open and its due time, as text, is before `now_text`.
pub open spec fn is_overdue(i: Item, now_text: Seq<char>) -> bool {
    i.status@ == "OPEN"@ && !lex_le(now_text, i.due_at@)
}

/// The item is marked important.
pub open spec fn is_important(i: Item) -> bool {
    i.important
}

/// Where the done, open and important items of a summary stand in its item
/// list, and how many open items are overdue.
#[derive(Debug, Clone)]
pub struct SummaryPartition {
    pub completed: Vec<usize>,
    pub open: Vec<usize>,
    pub important: Vec<usize>,
    pub overdue: usize,
}

/// Sorts the items of a summary into done, open and important ones and
/// counts the overdue among the open.
pub fn partition_items(items: &[Item], now_text: &str) -> (r: SummaryPartition)
    ensures
        r.completed@ == indices_where(items@, |i: Item| is_done(i)),
        r.open@ == indices_where(items@, |i: Item| is_open(i)),
        r.important@ == indices_where(items@, |i: Item| is_important(i)),
        r.overdue == indices_where(items@, |i: Item| is_overdue(i, now_text@)).len(),
        r.completed@.len() + r.open@.len() <= items@.len(),
        r.overdue <= r.open@.len(),
{
    proof {
        lemma_summary_counts(items@, now_text@);
    }
    let mut completed: Vec<usize> = Vec::new();
    let mut open: Vec<usize> = Vec::new();
    let mut important: Vec<usize> = Vec::new();
    let mut overdue: usize = 0;
    let mut k: usize = 0;
    while k < items.len()
        invariant
            k <= items@.len(),
            completed@ == indices_where(items@.take(k as int), |i: Item| is_done(i)),
            open@ == indices_where(items@.take(k as int), |i: Item| is_open(i)),
            important@ == indices_where(items@.take(k as int), |i: Item| is_important(i)),
            overdue == indices_where(items@.take(k as int), |i: Item| is_overdue(i, now_text@)).len(),
            overdue <= k,
        decreases items@.len() - k,
    {
        let item = &items[k];
        proof {
            assert(items@.take(k as int + 1).drop_last() =~= items@.take(k as int));
            assert(items@.take(k as int + 1).last() == items@[k as int]);
        }
        if str_eq(item.status.as_str(), "DONE") {
            completed.push(k);
        }
        if str_eq(item.status.as_str(), "OPEN") {
            open.push(k);
            if !crate::item_rules::text_le(now_text, item.due_at.as_str()) {
                overdue = overdue + 1;
            }
        }
        if item.important {
            important.push(k);
        }
        k = k + 1;
    }
    proof {
        assert(items@.take(items@.len() as int) =~= items@);
    }
    SummaryPartition { completed, open, important, overdue }
}

/// `n / d` rounded to the nearest whole number, halves to the even one.
pub open spec fn round_half_even(n: int, d: int) -> int {
    let q = n / d;
    let r = n % d;
    if 2 * r > d {
        q + 1
    } else if 2 * r < d {
        q
    } else if q % 2 == 0 {
        q
    } else {
        q + 1
    }
}

/// The completion rate as a whole percentage with a percent sign; `0%`
/// for an empty period.
pub open spec fn completion_rate_spec(completed: nat, total: nat) -> Seq<char> {
    if total == 0 {
        "0%"@
    } else {
        decimal_seq(round_half_even((100 * completed) as int, total as int) as nat) + "%"@
    }
}

/// The completion rate of a period.
pub fn completion_rate(completed: usize, total: usize) -> (r: String)
    requires
        completed <= total,
    ensures
        r@ == completion_rate_spec(completed as nat, total as nat),
{
    if total == 0 {
        return owned("0%");
    }
    let n: u128 = 100 * (completed as u128);
    let d: u128 = total as u128;
    let q: u128 = n / d;
    let rem: u128 = n % d;
    let rounded: u128 = if 2 * rem > d {
        q + 1
    } else if 2 * rem < d {
        q
    } else if q % 2 == 0 {
        q
    } else {
        q + 1
    };
    assert(rounded <= 101) by (nonlinear_arith)
        requires
            n == 100 * completed,
            completed <= total,
            d == total,
            d > 0,
            q == n / d,
            rounded <= q + 1,
    ;
    let text = u64_to_string(rounded as u64);
    concat(text.as_str(), "%")
}

/// The sentence that sums a period up.
pub open spec fn period_summary_spec(total: nat, completed: nat, open: nat, overdue: nat, important: nat) -> Seq<
    char,
> {
    "本期共纳入 "@ + decimal_seq(total) + " 项，完成 "@ + decimal_seq(completed) + " 项，期末未完成 "@
        + decimal_seq(open) + " 项，其中逾期 "@ + decimal_seq(overdue) + " 项、重要 "@ + decimal_seq(
        important,
    ) + " 项。"@
}

/// The sentence that sums a period up.
pub fn period_summary_text(total: usize, completed: usize, open: usize, overdue: usize, important: usize) -> (r:
    String)
    ensures
        r@ == period_summary_spec(
            total as nat,
            completed as nat,
            open as nat,
            overdue as nat,
            important as nat,
        ),
{
    let a = concat("本期共纳入 ", u64_to_string(total as u64).as_str());
    let b = concat(a.as_str(), " 项，完成 ");
    let c = concat(b.as_str(), u64_to_string(completed as u64).as_str());
    let d = concat(c.as_str(), " 项，期末未完成 ");
    let e = concat(d.as_str(), u64_to_string(open as u64).as_str());
    let f = concat(e.as_str(), " 项，其中逾期 ");
    let g = concat(f.as_str(), u64_to_string(overdue as u64).as_str());
    let h = concat(g.as_str(), " 项、重要 ");
    let i = concat(h.as_str(), u64_to_string(important as u64).as_str());
    let r = concat(i.as_str(), " 项。");
    proof {
        assert(r@ =~= period_summary_spec(
            total as nat,
            completed as nat,
            open as nat,
            overdue as nat,
            important as nat,
        ));
    }
    r
}

/// The event kinds in the order a summary lists them.
pub open spec fn summary_kinds() -> Seq<Seq<char>> {
    seq!["ORDINARY"@, "ONE_TIME"@, "TODAY_MUST"@, "WARNING"@, "CONTINUOUS"@, "MONTHLY"@, "YEARLY"@]
}

/// The item has the given event kind.
pub open spec fn has_kind(i: Item, kind: Seq<char>) -> bool {
    i.event_kind matches Some(k) && k@ == kind
}

/// A `name / total / completed` row.
pub open spec fn tally_row(name: Seq<char>, total: nat, completed: nat) -> Seq<(Seq<char>, Seq<char>)> {
    pairs_insert(
        pairs_insert(pairs_insert(Seq::empty(), "name"@, name), "total"@, decimal_seq(total)),
        "completed"@,
        decimal_seq(completed),
    )
}

fn tally_row_of(name: &str, total: usize, completed: usize) -> (r: FieldMap)
    ensures
        r.pairs() == tally_row(name@, total as nat, completed as nat),
{
    let mut row = FieldMap::new();
    row.insert(owned("name"), owned(name));
    row.insert(owned("total"), u64_to_string(total as u64));
    row.insert(owned("completed"), u64_to_string(completed as u64));
    row
}

/// How many items have the kind, and how many of those are done.
fn count_kind(items: &[Item], kind: &str) -> (r: (usize, usize))
    ensures
        r.0 == indices_where(items@, |i: Item| has_kind(i, kind@)).len(),
        r.1 == indices_where(items@, |i: Item| has_kind(i, kind@) && is_done(i)).len(),
{
    let mut total: usize = 0;
    let mut done: usize = 0;
    let mut k: usize = 0;
    while k < items.len()
        invariant
            k <= items@.len(),
            total == indices_where(items@.take(k as int), |i: Item| has_kind(i, kind@)).len(),
            done == indices_where(items@.take(k as int), |i: Item| has_kind(i, kind@) && is_done(i)).len(),
            done <= total <= k,
        decreases items@.len() - k,
    {
        proof {
            assert(items@.take(k as int + 1).drop_last() =~= items@.take(k as int));
            assert(items@.take(k as int + 1).last() == items@[k as int]);
        }
        let matches_kind = match &items[k].event_kind {
            Some(x) => str_eq(x.as_str(), kind),
            None => false,
        };
        if matches_kind {
            total = total + 1;
            if str_eq(items[k].status.as_str(), "DONE") {
                done = done + 1;
            }
        }
        k = k + 1;
    }
    proof {
        assert(items@.take(items@.len() as int) =~= items@);
    }
    (total, done)
}

/// The rows of the event-kind table: each kind in order, with its name,
/// its number of items and how many of them are done.
pub fn kind_rows(items: &[Item]) -> (r: Vec<FieldMap>)
    ensures
        r@.len() == 7,
        forall|j: int|
            0 <= j < 7 ==> (#[trigger] r@[j]).pairs() == tally_row(
                summary_kind_label_spec(Some(summary_kinds()[j])),
                indices_where(items@, |i: Item| has_kind(i, summary_kinds()[j])).len(),
                indices_where(items@, |i: Item| has_kind(i, summary_kinds()[j]) && is_done(i)).len(),
            ),
{
    let kinds: [&str; 7] = ["ORDINARY", "ONE_TIME", "TODAY_MUST", "WARNING", "CONTINUOUS", "MONTHLY", "YEARLY"];
    let mut rows: Vec<FieldMap> = Vec::new();
    let mut j: usize = 0;
    while j < 7
        invariant
            j <= 7,
            kinds@ == summary_kinds_exec(),
            rows@.len() == j,
            forall|m: int|
                0 <= m < j ==> (#[trigger] rows@[m]).pairs() == tally_row(
                    summary_kind_label_spec(Some(summary_kinds()[m])),
                    indices_where(items@, |i: Item| has_kind(i, summary_kinds()[m])).len(),
                    indices_where(items@, |i: Item| has_kind(i, summary_kinds()[m]) && is_done(i)).len(),
                ),
        decreases 7 - j,
    {
        let kind = kinds[j];
        proof {
            lemma_summary_kinds(j as int, kind@);
        }
        let (total, done) = count_kind(items, kind);
        let label = summary_kind_label(Some(kind));
        rows.push(tally_row_of(label, total, done));
        j = j + 1;
    }
    rows
}

/// The kinds as the literal views they are written with.
pub open spec fn summary_kinds_exec() -> Seq<&'static str> {
    seq!["ORDINARY", "ONE_TIME", "TODAY_MUST", "WARNING", "CONTINUOUS", "MONTHLY", "YEARLY"]
}

proof fn lemma_summary_kinds(j: int, v: Seq<char>)
    requires
        0 <= j < 7,
        v == summary_kinds_exec()[j]@,
    ensures
        v == summary_kinds()[j],
{
}

/// The category an item is counted under; `未分类` without one.
pub open spec fn category_of(i: Item) -> Seq<char> {
    match i.category_name {
        Some(n) => n@,
        None => "未分类"@,
    }
}

fn category_text(item: &Item) -> (r: String)
    ensures
        r@ == category_of(*item),
{
    match &item.category_name {
        Some(n) => n.clone(),
        None => owned("未分类"),
    }
}

/// How many items fall under the category, and how many of those are done.
fn count_category(items: &[Item], name: &str) -> (r: (usize, usize))
    ensures
        r.0 == indices_where(items@, |i: Item| category_of(i) == name@).len(),
        r.1 == indices_where(items@, |i: Item| category_of(i) == name@ && is_done(i)).len(),
{
    let mut total: usize = 0;
    let mut done: usize = 0;
    let mut k: usize = 0;
    while k < items.len()
        invariant
            k <= items@.len(),
            total == indices_where(items@.take(k as int), |i: Item| category_of(i) == name@).len(),
            done == indices_where(items@.take(k as int), |i: Item| category_of(i) == name@ && is_done(i)).len(),
            done <= total <= k,
        decreases items@.len() - k,
    {
        proof {
            assert(items@.take(k as int + 1).drop_last() =~= items@.take(k as int));
            assert(items@.take(k as int + 1).last() == items@[k as int]);
        }
        let c = category_text(&items[k]);
        if str_eq(c.as_str(), name) {
            total = total + 1;
            if str_eq(items[k].status.as_str(), "DONE") {
                done = done + 1;
            }
        }
        k = k + 1;
    }
    proof {
        assert(items@.take(items@.len() as int) =~= items@);
    }
    (total, done)
}

/// The categories of the items, each once, in increasing order.
pub fn category_names(items: &[Item]) -> (r: Vec<String>)
    ensures
        crate::summary::strictly_sorted(r@),
        forall|n: Seq<char>|
            crate::summary::names_of(r@).contains(n) <==> exists|k: int|
                0 <= k < items@.len() && category_of(#[trigger] items@[k]) == n,
{
    let mut names: Vec<String> = Vec::new();
    let mut k: usize = 0;
    while k < items.len()
        invariant
            k <= items@.len(),
            crate::summary::strictly_sorted(names@),
            forall|n: Seq<char>|
                crate::summary::names_of(names@).contains(n) <==> exists|m: int|
                    0 <= m < k && category_of(#[trigger] items@[m]) == n,
        decreases items@.len() - k,
    {
        let c = category_text(&items[k]);
        let ghost before = names@;
        crate::summary::insert_name(&mut names, c);
        proof {
            assert forall|n: Seq<char>|
                crate::summary::names_of(names@).contains(n) <==> exists|m: int|
                    0 <= m < k + 1 && category_of(#[trigger] items@[m]) == n by {
                if crate::summary::names_of(names@).contains(n) {
                    if n == category_of(items@[k as int]) {
                    } else {
                        assert(crate::summary::names_of(before).contains(n));
                    }
                }
                if exists|m: int| 0 <= m < k + 1 && category_of(#[trigger] items@[m]) == n {
                    let m = choose|m: int| 0 <= m < k + 1 && category_of(#[trigger] items@[m]) == n;
                    if m < k {
                        assert(crate::summary::names_of(before).contains(n));
                    }
                }
            }
        }
        k = k + 1;
    }
    names
}

/// The rows of the category table: each category once, in increasing
/// order of name, with its number of items and how many of them are done.
pub fn category_rows(items: &[Item]) -> (r: Vec<FieldMap>)
    ensures
        exists|names: Seq<String>|
            {
                &&& crate::summary::strictly_sorted(names)
                &&& (forall|n: Seq<char>|
                    crate::summary::names_of(names).contains(n) <==> exists|k: int|
                        0 <= k < items@.len() && category_of(#[trigger] items@[k]) == n)
                &&& r@.len() == names.len()
                &&& forall|j: int|
                    0 <= j < names.len() ==> (#[trigger] r@[j]).pairs() == tally_row(
                        names[j]@,
                        indices_where(items@, |i: Item| category_of(i) == names[j]@).len(),
                        indices_where(items@, |i: Item| category_of(i) == names[j]@ && is_done(i)).len(),
                    )
            },
{
    let names = category_names(items);
    let mut rows: Vec<FieldMap> = Vec::new();
    let mut j: usize = 0;
    while j < names.len()
        invariant
            j <= names@.len(),
            rows@.len() == j,
            forall|m: int|
                0 <= m < j ==> (#[trigger] rows@[m]).pairs() == tally_row(
                    names@[m]@,
                    indices_where(items@, |i: Item| category_of(i) == names@[m]@).len(),
                    indices_where(items@, |i: Item| category_of(i) == names@[m]@ && is_done(i)).len(),
                ),
        decreases names@.len() - j,
    {
        let (total, done) = count_category(items, names[j].as_str());
        rows.push(tally_row_of(names[j].as_str(), total, done));
        j = j + 1;
    }
    rows
}

/// The fixed values of a summary: its title, period, time of making, the
/// summing-up sentence, the counts and the completion rate.
pub fn summary_scalars(
    period_label: &str,
    generated_at: &str,
    total: usize,
    completed: usize,
    open: usize,
    overdue: usize,
    important: usize,
) -> (r: FieldMap)
    requires
        completed <= total,
    ensures
        r.pairs() == scalars_spec(
            period_label@,
            generated_at@,
            total as nat,
            completed as nat,
            open as nat,
            overdue as nat,
            important as nat,
        ),
{
    let mut m = FieldMap::new();
    m.insert(owned("report_title"), concat(period_label, "小结"));
    m.insert(owned("period_label"), owned(period_label));
    m.insert(owned("generated_at"), owned(generated_at));
    m.insert(owned("period_summary"), period_summary_text(total, completed, open, overdue, important));
    m.insert(owned("total_count"), u64_to_string(total as u64));
    m.insert(owned("completed_count"), u64_to_string(completed as u64));
    m.insert(owned("open_count"), u64_to_string(open as u64));
    m.insert(owned("overdue_count"), u64_to_string(overdue as u64));
    m.insert(owned("important_count"), u64_to_string(important as u64));
    m.insert(owned("completion_rate"), completion_rate(completed, total));
    m
}

/// The fixed values of a summary, as `summary_scalars` enters them.
pub open spec fn scalars_spec(
    period_label: Seq<char>,
    generated_at: Seq<char>,
    total: nat,
    completed: nat,
    open: nat,
    overdue: nat,
    important: nat,
) -> Seq<(Seq<char>, Seq<char>)> {
    let a = pairs_insert(Seq::empty(), "report_title"@, period_label + "小结"@);
    let b = pairs_insert(a, "period_label"@, period_label);
    let c = pairs_insert(b, "generated_at"@, generated_at);
    let d = pairs_insert(c, "period_summary"@, period_summary_spec(total, completed, open, overdue, important));
    let e = pairs_insert(d, "total_count"@, decimal_seq(total));
    let f = pairs_insert(e, "completed_count"@, decimal_seq(completed));
    let g = pairs_insert(f, "open_count"@, decimal_seq(open));
    let h = pairs_insert(g, "overdue_count"@, decimal_seq(overdue));
    let i = pairs_insert(h, "important_count"@, decimal_seq(important));
    pairs_insert(i, "completion_rate"@, completion_rate_spec(completed, total))
}

/// When a summary was made, as local `YYYY-MM-DD HH:MM`.
pub fn generated_at_text(now: i64) -> (r: String)
    requires
        crate::clock::instant_ok(now as int),
    ensures
        exists|l: LocalDateTime|
            supported_local(l) && r@ == chrono_format_ymd(l.date.year, l.date.month, l.date.day) + " "@
                + #[trigger] hm_text(l.seconds as int),
{
    let local = to_local(now);
    let d = format_ymd(local.date);
    let t = format_hm(local.seconds);
    let a = concat(d.as_str(), " ");
    concat(a.as_str(), t.as_str())
}

// ---------------------------------------------------------------------------
// Order of the items
// ---------------------------------------------------------------------------
/// `a` comes strictly before `b` in a summary: by due time, then by title,
/// both compared as text.
pub open spec fn key_before(a: Item, b: Item) -> bool {
    crate::summary::lex_lt(a.due_at@, b.due_at@) || (a.due_at@ == b.due_at@ && crate::summary::lex_lt(
        a.title@,
        b.title@,
    ))
}

/// The item at `x` is listed before the one at `y`: by its key, and items
/// with the same key in the order they were given.
pub open spec fn listed_before(items: Seq<Item>, x: usize, y: usize) -> bool {
    key_before(items[x as int], items[y as int]) || (!key_before(items[y as int], items[x as int]) && x < y)
}

proof fn lemma_lt_not_ge(a: Seq<char>, b: Seq<char>)
    requires
        crate::summary::lex_lt(a, b),
    ensures
        !lex_le(b, a),
{
    if lex_le(b, a) {
        crate::domain::lemma_lex_antisym(a, b);
    }
}

proof fn lemma_not_lt_ge(a: Seq<char>, b: Seq<char>)
    requires
        !crate::summary::lex_lt(a, b),
    ensures
        lex_le(b, a),
{
    crate::domain::lemma_lex_total(a, b);
    if !lex_le(b, a) {
        assert(lex_le(a, b));
        assert(a == b);
        assert(false);
    }
}

proof fn lemma_lt_le_lt(a: Seq<char>, b: Seq<char>, c: Seq<char>)
    requires
        crate::summary::lex_lt(a, b),
        lex_le(b, c),
    ensures
        crate::summary::lex_lt(a, c),
{
    crate::domain::lemma_lex_trans(a, b, c);
    if a == c {
        crate::domain::lemma_lex_antisym(a, b);
    }
}

/// No item is strictly before one that is strictly before it.
proof fn lemma_key_asym(a: Item, b: Item)
    requires
        key_before(a, b),
    ensures
        !key_before(b, a),
{
    if crate::summary::lex_lt(a.due_at@, b.due_at@) {
        lemma_lt_not_ge(a.due_at@, b.due_at@);
    } else {
        lemma_lt_not_ge(a.title@, b.title@);
    }
}

/// Strictly before, then not after, is strictly before.
proof fn lemma_key_before_then_not_after(a: Item, b: Item, c: Item)
    requires
        key_before(a, b),
        !key_before(c, b),
    ensures
        key_before(a, c),
{
    lemma_not_lt_ge(c.due_at@, b.due_at@);
    if crate::summary::lex_lt(a.due_at@, b.due_at@) {
        lemma_lt_le_lt(a.due_at@, b.due_at@, c.due_at@);
    } else {
        // Same due time as `b`, earlier title.
        if b.due_at@ == c.due_at@ {
            lemma_not_lt_ge(c.title@, b.title@);
            lemma_lt_le_lt(a.title@, b.title@, c.title@);
        } else {
            assert(crate::summary::lex_lt(b.due_at@, c.due_at@));
        }
    }
}

/// The order of a summary's items: the positions of the items sorted by
/// due time and then title, keeping the given order of items with the
/// same key (as a stable sort does).
pub fn summary_order(items: &[Item]) -> (r: Vec<usize>)
    ensures
        r@.len() == items@.len(),
        forall|i: int| 0 <= i < r@.len() ==> #[trigger] r@[i] < items@.len(),
        forall|i: int, j: int| 0 <= i < j < r@.len() ==> listed_before(items@, #[trigger] r@[i], #[trigger] r@[j]),
{
    let n = items.len();
    let mut order: Vec<usize> = Vec::new();
    let mut k: usize = 0;
    while k < n
        invariant
            n == items@.len(),
            k <= n,
            order@.len() == k,
            forall|i: int| 0 <= i < order@.len() ==> #[trigger] order@[i] < k,
            forall|i: int, j: int|
                0 <= i < j < order@.len() ==> listed_before(items@, #[trigger] order@[i], #[trigger] order@[j]),
        decreases n - k,
    {
        let mut p: usize = 0;
        while p < order.len() && !before_key(&items[k], &items[order[p]])
            invariant
                n == items@.len(),
                k < n,
                p <= order@.len(),
                order@.len() == k,
                forall|i: int| 0 <= i < order@.len() ==> #[trigger] order@[i] < k,
                forall|i: int| 0 <= i < p ==> !key_before(items@[k as int], items@[#[trigger] order@[i] as int]),
            decreases order@.len() - p,
        {
            p = p + 1;
        }
        let ghost before = order@;
        proof {
            if p < before.len() {
                assert(key_before(items@[k as int], items@[before[p as int] as int]));
            }
        }
        order.insert(p, k);
        proof {
            assert(order@ == before.insert(p as int, k));
            assert forall|i: int, j: int|
                0 <= i < j < order@.len() implies listed_before(items@, #[trigger] order@[i], #[trigger] order@[j]) by {
                if j < p {
                    assert(order@[i] == before[i] && order@[j] == before[j]);
                } else if j == p {
                    assert(order@[i] == before[i]);
                    assert(order@[j] == k);
                    let e = before[i];
                    assert(!key_before(items@[k as int], items@[e as int]));
                    assert(e < k);
                } else if i == p {
                    assert(order@[i] == k);
                    assert(order@[j] == before[j - 1]);
                    let e = before[j - 1];
                    let f = before[p as int];
                    if j - 1 > p {
                        assert(listed_before(items@, f, e));
                        if key_before(items@[e as int], items@[f as int]) {
                            lemma_key_asym(items@[e as int], items@[f as int]);
                        }
                        assert(!key_before(items@[e as int], items@[f as int])) by {
                            if key_before(items@[e as int], items@[f as int]) {
                                lemma_key_asym(items@[e as int], items@[f as int]);
                            }
                        }
                        lemma_key_before_then_not_after(items@[k as int], items@[f as int], items@[e as int]);
                    }
                } else if i < p {
                    assert(order@[i] == before[i]);
                    assert(order@[j] == before[j - 1]);
                } else {
                    assert(order@[i] == before[i - 1]);
                    assert(order@[j] == before[j - 1]);
                }
            }
        }
        k = k + 1;
    }
    order
}

/// Whether `a` comes strictly before `b` in a summary.
fn before_key(a: &Item, b: &Item) -> (r: bool)
    ensures
        r == key_before(*a, *b),
{
    let due_a = crate::text::chars_of(a.due_at.as_str());
    let due_b = crate::text::chars_of(b.due_at.as_str());
    let same_due = str_eq(a.due_at.as_str(), b.due_at.as_str());
    if !same_due {
        return crate::domain::lex_le_exec(&due_a, &due_b);
    }
    let title_a = crate::text::chars_of(a.title.as_str());
    let title_b = crate::text::chars_of(b.title.as_str());
    crate::domain::lex_le_exec(&title_a, &title_b) && !str_eq(a.title.as_str(), b.title.as_str())
}

// ---------------------------------------------------------------------------
// A whole summary
// ---------------------------------------------------------------------------
/// The rows of the listed items, in the order given.
pub fn rows_of(items: &[Item], positions: &[usize], now_text: &str) -> (r: Vec<FieldMap>)
    requires
        forall|i: int| 0 <= i < positions@.len() ==> #[trigger] positions@[i] < items@.len(),
    ensures
        r@.len() == positions@.len(),
        forall|i: int| 0 <= i < r@.len() ==> row_of(#[trigger] r@[i], items@[positions@[i] as int], now_text@),
{
    let mut rows: Vec<FieldMap> = Vec::new();
    let mut i: usize = 0;
    while i < positions.len()
        invariant
            i <= positions@.len(),
            rows@.len() == i,
            forall|j: int| 0 <= j < positions@.len() ==> #[trigger] positions@[j] < items@.len(),
            forall|j: int| 0 <= j < i ==> row_of(#[trigger] rows@[j], items@[positions@[j] as int], now_text@),
        decreases positions@.len() - i,
    {
        let row = item_row(&items[positions[i]], now_text);
        let ghost before = rows@;
        rows.push(row);
        proof {
            assert forall|j: int| 0 <= j < i + 1 implies row_of(#[trigger] rows@[j], items@[positions@[j] as int], now_text@) by {
                if j < i {
                    assert(rows@[j] == before[j]);
                } else {
                    assert(rows@[j] == row);
                }
            }
        }
        i = i + 1;
    }
    rows
}

/// What a summary holds: its fixed values, its five tables and its counts.
pub struct SummaryContent {
    pub scalar: FieldMap,
    pub collections: crate::summary::CollectionRows,
    pub item_count: usize,
    pub completed_count: usize,
    pub open_count: usize,
    pub overdue_count: usize,
    pub important_count: usize,
}

/// The contents of a summary of the period's items (already in summary
/// order), made at `now_text` (`generated_at` as the local time shown).
pub fn summary_content(items: &[Item], period_label: &str, generated_at: &str, now_text: &str) -> (r:
    SummaryContent)
    ensures
        r.item_count == items@.len(),
        r.completed_count == indices_where(items@, |i: Item| is_done(i)).len(),
        r.open_count == indices_where(items@, |i: Item| is_open(i)).len(),
        r.important_count == indices_where(items@, |i: Item| is_important(i)).len(),
        r.overdue_count == indices_where(items@, |i: Item| is_overdue(i, now_text@)).len(),
        r.scalar.pairs() == scalars_spec(
            period_label@,
            generated_at@,
            r.item_count as nat,
            r.completed_count as nat,
            r.open_count as nat,
            r.overdue_count as nat,
            r.important_count as nat,
        ),
        crate::summary::rows_for(r.collections.lists(), "completed_item"@).len() == r.completed_count,
        crate::summary::rows_for(r.collections.lists(), "open_item"@).len() == r.open_count,
        crate::summary::rows_for(r.collections.lists(), "important_item"@).len() == r.important_count,
        crate::summary::rows_for(r.collections.lists(), "event_kind"@).len() == 7,
{
    let part = partition_items(items, now_text);
    proof {
        lemma_indices_bounded(items@, |i: Item| is_done(i));
        lemma_indices_bounded(items@, |i: Item| is_open(i));
        lemma_indices_bounded(items@, |i: Item| is_important(i));
    }
    let completed_count = part.completed.len();
    let open_count = part.open.len();
    let important_count = part.important.len();
    let scalar = summary_scalars(
        period_label,
        generated_at,
        items.len(),
        completed_count,
        open_count,
        part.overdue,
        important_count,
    );
    let mut collections = crate::summary::CollectionRows::new();
    collections.insert(owned("event_kind"), kind_rows(items));
    collections.insert(owned("category"), category_rows(items));
    collections.insert(owned("completed_item"), rows_of(items, part.completed.as_slice(), now_text));
    collections.insert(owned("open_item"), rows_of(items, part.open.as_slice(), now_text));
    collections.insert(owned("important_item"), rows_of(items, part.important.as_slice(), now_text));
    proof {
        reveal_strlit("event_kind");
        reveal_strlit("category");
        reveal_strlit("completed_item");
        reveal_strlit("open_item");
        reveal_strlit("important_item");
        assert("event_kind"@.len() == 10 && "category"@.len() == 8 && "completed_item"@.len() == 14
            && "open_item"@.len() == 9 && "important_item"@.len() == 14);
        assert("completed_item"@[0] != "important_item"@[0]);
    }
    SummaryContent {
        scalar,
        collections,
        item_count: items.len(),
        completed_count,
        open_count,
        overdue_count: part.overdue,
        important_count,
    }
}

/// The counts of a summary fit together: done and open items together are
/// no more than all items (an item is one or the other or neither), and the
/// overdue items are no more than the open ones.
pub proof fn lemma_summary_counts(items: Seq<Item>, now_text: Seq<char>)
    ensures
        indices_where(items, |i: Item| is_done(i)).len() + indices_where(items, |i: Item| is_open(i)).len()
            <= items.len(),
        indices_where(items, |i: Item| is_overdue(i, now_text)).len() <= indices_where(
            items,
            |i: Item| is_open(i),
        ).len(),
        indices_where(items, |i: Item| is_important(i)).len() <= items.len(),
    decreases items.len(),
{
    if items.len() > 0 {
        lemma_summary_counts(items.drop_last(), now_text);
        reveal_strlit("DONE");
        reveal_strlit("OPEN");
        assert("DONE"@[0] != "OPEN"@[0]);
    }
}

/// The positions `indices_where` gives lie inside the list, and there are
/// no more of them than items.
proof fn lemma_indices_bounded(items: Seq<Item>, p: spec_fn(Item) -> bool)
    ensures
        forall|i: int| 0 <= i < indices_where(items, p).len() ==> #[trigger] indices_where(items, p)[i] < items.len(),
        indices_where(items, p).len() <= items.len(),
    decreases items.len(),
{
    if items.len() > 0 {
        lemma_indices_bounded(items.drop_last(), p);
    }
}

} // verus!
