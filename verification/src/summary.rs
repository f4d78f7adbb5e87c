//! Monthly and quarterly summaries written into a Word template: the
//! placeholders a template may use, the checks on where list placeholders
//! stand, the filling of the document text, and the reporting period.
use vstd::prelude::*;

use crate::domain::Item;
use crate::error::{AppError, AppResult};
use crate::domain::{lemma_lex_antisym, lemma_lex_total, lemma_lex_trans, lex_le, lex_le_exec};
use crate::text::{
    chars_of, contains_seq, find_first, find_last, find_spec, lemma_find_spec_contains,
    lemma_find_spec_props, lemma_rfind_spec_props, owned, rfind_spec, str_eq, string_from_chars,
    subvec, trim_chars, trim_seq,
};

verus! {

// ---------------------------------------------------------------------------
// XML escaping
// ---------------------------------------------------------------------------
/// What one character of a value becomes inside the document XML.
pub open spec fn xml_escaped_char(c: char) -> Seq<char> {
    if c == '&' {
        seq!['&', 'a', 'm', 'p', ';']
    } else if c == '<' {
        seq!['&', 'l', 't', ';']
    } else if c == '>' {
        seq!['&', 'g', 't', ';']
    } else if c == '"' {
        seq!['&', 'q', 'u', 'o', 't', ';']
    } else if c == '\'' {
        seq!['&', 'a', 'p', 'o', 's', ';']
    } else {
        seq![c]
    }
}

/// A value with every markup character replaced by its XML entity.
pub open spec fn escape_xml_seq(s: Seq<char>) -> Seq<char>
    decreases s.len(),
{
    if s.len() == 0 {
        Seq::empty()
    } else {
        escape_xml_seq(s.drop_last()) + xml_escaped_char(s.last())
    }
}

fn xml_piece(c: char) -> (r: Vec<char>)
    ensures
        r@ == xml_escaped_char(c),
{
    if c == '&' {
        vec!['&', 'a', 'm', 'p', ';']
    } else if c == '<' {
        vec!['&', 'l', 't', ';']
    } else if c == '>' {
        vec!['&', 'g', 't', ';']
    } else if c == '"' {
        vec!['&', 'q', 'u', 'o', 't', ';']
    } else if c == '\'' {
        vec!['&', 'a', 'p', 'o', 's', ';']
    } else {
        vec![c]
    }
}

/// Escapes `&`, `<`, `>`, `"` and `'` so that a value can stand in the
/// document XML.
pub fn escape_xml(value: &str) -> (r: String)
    ensures
        r@ == escape_xml_seq(value@),
{
    let chars = chars_of(value);
    let mut out: Vec<char> = Vec::new();
    let mut i: usize = 0;
    while i < chars.len()
        invariant
            i <= chars@.len(),
            out@ == escape_xml_seq(chars@.subrange(0, i as int)),
        decreases chars@.len() - i,
    {
        let mut piece = xml_piece(chars[i]);
        out.append(&mut piece);
        proof {
            let next = chars@.subrange(0, i as int + 1);
            assert(next.drop_last() =~= chars@.subrange(0, i as int));
        }
        i = i + 1;
    }
    assert(chars@.subrange(0, chars@.len() as int) =~= chars@);
    string_from_chars(&out)
}

/// Escaped values hold no `<`, `>`, `"` or `'`, so they cannot open markup.
pub proof fn lemma_escaped_value_has_no_markup(s: Seq<char>)
    ensures
        forall|j: int|
            0 <= j < escape_xml_seq(s).len() ==> {
                let c = #[trigger] escape_xml_seq(s)[j];
                c != '<' && c != '>' && c != '"' && c != '\''
            },
    decreases s.len(),
{
    if s.len() > 0 {
        lemma_escaped_value_has_no_markup(s.drop_last());
        let head = escape_xml_seq(s.drop_last());
        let tail = xml_escaped_char(s.last());
        assert forall|j: int| 0 <= j < escape_xml_seq(s).len() implies {
            let c = #[trigger] escape_xml_seq(s)[j];
            c != '<' && c != '>' && c != '"' && c != '\''
        } by {
            if j >= head.len() {
                assert(escape_xml_seq(s)[j] == tail[j - head.len()]);
            } else {
                assert(escape_xml_seq(s)[j] == head[j]);
            }
        }
    }
}

// ---------------------------------------------------------------------------
// Placeholders
// ---------------------------------------------------------------------------
/// `{{`
pub open spec fn open_mark() -> Seq<char> {
    seq!['{', '{']
}

/// `}}`
pub open spec fn close_mark() -> Seq<char> {
    seq!['}', '}']
}

/// The placeholder names of a document in the order they appear: the text
/// between each `{{` and the next `}}`, trimmed. An unclosed `{{` ends the
/// list.
pub open spec fn placeholder_list(xml: Seq<char>) -> Seq<Seq<char>>
    decreases xml.len(),
{
    match find_spec(xml, open_mark(), 0) {
        None => Seq::empty(),
        Some(s) => {
            proof {
                lemma_find_spec_props(xml, open_mark(), 0);
            }
            let rest = xml.subrange(s + 2, xml.len() as int);
            match find_spec(rest, close_mark(), 0) {
                None => Seq::empty(),
                Some(e) => {
                    proof {
                        lemma_find_spec_props(rest, close_mark(), 0);
                    }
                    seq![trim_seq(rest.subrange(0, e))] + placeholder_list(rest.subrange(e + 2, rest.len() as int))
                },
            }
        },
    }
}

/// `a` comes strictly before `b`.
pub open spec fn lex_lt(a: Seq<char>, b: Seq<char>) -> bool {
    lex_le(a, b) && a != b
}

/// The names are in strictly increasing order (so none repeats).
pub open spec fn strictly_sorted(s: Seq<String>) -> bool {
    forall|i: int, j: int| 0 <= i < j < s.len() ==> lex_lt(#[trigger] s[i]@, #[trigger] s[j]@)
}

/// The names of a list of strings.
pub open spec fn names_of(s: Seq<String>) -> Seq<Seq<char>> {
    s.map_values(|x: String| x@)
}

proof fn lemma_lex_lt_trans(a: Seq<char>, b: Seq<char>, c: Seq<char>)
    requires
        lex_lt(a, b),
        lex_lt(b, c),
    ensures
        lex_lt(a, c),
{
    lemma_lex_trans(a, b, c);
    if a == c {
        lemma_lex_antisym(a, b);
    }
}

/// Adds a name to a strictly sorted list unless it is already there.
pub(crate) fn insert_name(out: &mut Vec<String>, name: String)
    requires
        strictly_sorted(old(out)@),
    ensures
        strictly_sorted(final(out)@),
        forall|n: Seq<char>| names_of(final(out)@).contains(n) <==> (names_of(old(out)@).contains(n) || n == name@),
{
    let name_chars = chars_of(name.as_str());
    let mut i: usize = 0;
    let mut found = false;
    while i < out.len()
        invariant
            i <= out@.len(),
            strictly_sorted(out@),
            name_chars@ == name@,
            forall|j: int| 0 <= j < i ==> lex_lt(#[trigger] out@[j]@, name@),
        ensures
            i <= out@.len(),
            forall|j: int| 0 <= j < i ==> lex_lt(#[trigger] out@[j]@, name@),
            i < out@.len() ==> lex_le(name@, out@[i as int]@),
        decreases out@.len() - i,
    {
        let here = chars_of(out[i].as_str());
        if lex_le_exec(&name_chars, &here) {
            break;
        }
        proof {
            lemma_lex_total(name@, out@[i as int]@);
            lemma_lex_total(name@, name@);
        }
        i = i + 1;
    }
    let ghost before = out@;
    if i < out.len() && str_eq(out[i].as_str(), name.as_str()) {
        proof {
            assert(names_of(before)[i as int] == name@);
            assert forall|n: Seq<char>| names_of(before).contains(n) <==> (names_of(before).contains(n)
                || n == name@) by {
                if n == name@ {
                    assert(names_of(before)[i as int] == n);
                }
            }
        }
        return;
    }
    out.insert(i, name);
    proof {
        let after = out@;
        assert(after =~= before.subrange(0, i as int).push(after[i as int]) + before.subrange(
            i as int,
            before.len() as int,
        ));
        assert forall|a: int, b: int| 0 <= a < b < after.len() implies lex_lt(
            #[trigger] after[a]@,
            #[trigger] after[b]@,
        ) by {
            if b < i {
                assert(after[a] == before[a] && after[b] == before[b]);
            } else if b == i {
                assert(after[a] == before[a]);
            } else if a == i {
                assert(after[b] == before[b - 1]);
                if b - 1 > i {
                    assert(lex_lt(before[i as int]@, before[b - 1]@));
                    lemma_lex_trans(name@, before[i as int]@, before[b - 1]@);
                    if name@ == before[b - 1]@ {
                        lemma_lex_antisym(name@, before[i as int]@);
                    }
                }
            } else if a < i {
                assert(after[a] == before[a] && after[b] == before[b - 1]);
                if b - 1 >= i as int {
                    assert(lex_lt(before[a]@, before[b - 1]@));
                }
            } else {
                assert(after[a] == before[a - 1] && after[b] == before[b - 1]);
            }
        }
        assert forall|n: Seq<char>| names_of(after).contains(n) <==> (names_of(before).contains(n) || n
            == name@) by {
            if names_of(after).contains(n) {
                let k = choose|k: int| 0 <= k < names_of(after).len() && names_of(after)[k] == n;
                if k < i {
                    assert(names_of(before)[k] == n);
                } else if k > i {
                    assert(names_of(before)[k - 1] == n);
                }
            }
            if names_of(before).contains(n) {
                let k = choose|k: int| 0 <= k < names_of(before).len() && names_of(before)[k] == n;
                if k < i {
                    assert(names_of(after)[k] == n);
                } else {
                    assert(names_of(after)[k + 1] == n);
                }
            }
            if n == name@ {
                assert(names_of(after)[i as int] == n);
            }
        }
    }
}

/// The distinct placeholder names of a document, in increasing order.
pub fn collect_placeholders(xml: &str) -> (r: Vec<String>)
    ensures
        strictly_sorted(r@),
        forall|n: Seq<char>| names_of(r@).contains(n) <==> placeholder_list(xml@).contains(n),
{
    let open = vec!['{', '{'];
    let close = vec!['}', '}'];
    let mut rest = chars_of(xml);
    let mut out: Vec<String> = Vec::new();
    let ghost mut seen: Seq<Seq<char>> = Seq::empty();
    loop
        invariant
            open@ == open_mark(),
            close@ == close_mark(),
            strictly_sorted(out@),
            seen + placeholder_list(rest@) == placeholder_list(xml@),
            forall|n: Seq<char>| names_of(out@).contains(n) <==> seen.contains(n),
        decreases rest@.len(),
    {
        let s = match find_first(&rest, &open, 0) {
            Some(s) => s,
            None => {
                assert(seen + placeholder_list(rest@) =~= seen);
                return out;
            },
        };
        proof {
            lemma_find_spec_props(rest@, open_mark(), 0);
            assert(open@ == open_mark());
            assert(s + 2 <= rest@.len());
        }
        let rest_len = rest.len();
        let after = subvec(&rest, s + 2, rest_len);
        let e = match find_first(&after, &close, 0) {
            Some(e) => e,
            None => {
                assert(seen + placeholder_list(rest@) =~= seen);
                return out;
            },
        };
        proof {
            lemma_find_spec_props(after@, close_mark(), 0);
        }
        let ghost seen_before = seen;
        let inner = subvec(&after, 0, e);
        let trimmed = trim_chars(&inner);
        let name = string_from_chars(&trimmed);
        let next = subvec(&after, e + 2, after.len());
        proof {
            assert(placeholder_list(rest@) == seq![name@] + placeholder_list(next@));
            assert(seen + placeholder_list(rest@) =~= seen.push(name@) + placeholder_list(next@));
            assert forall|n: Seq<char>| seen.push(name@).contains(n) <==> (seen.contains(n) || n == name@) by {
                if seen.push(name@).contains(n) {
                    let k = choose|k: int| 0 <= k < seen.push(name@).len() && seen.push(name@)[k] == n;
                    if k < seen.len() {
                        assert(seen[k] == n);
                    }
                }
                if seen.contains(n) {
                    let k = choose|k: int| 0 <= k < seen.len() && seen[k] == n;
                    assert(seen.push(name@)[k] == n);
                }
                if n == name@ {
                    assert(seen.push(name@)[seen.len() as int] == n);
                }
            }
            seen = seen.push(name@);
        }
        let ghost added = name@;
        let ghost prior = out@;
        insert_name(&mut out, name);
        assert forall|n: Seq<char>| names_of(out@).contains(n) <==> seen.contains(n) by {
            assert(names_of(out@).contains(n) <==> (names_of(prior).contains(n) || n == added));
            assert(names_of(prior).contains(n) <==> seen_before.contains(n));
            assert(seen == seen_before.push(added));
            assert(seen_before.push(added).contains(n) <==> (seen_before.contains(n) || n == added));
        }
        rest = next;
    }
}

/// The names a template may use: the report's own values and the columns of
/// its five lists.
pub open spec fn supported_placeholder_spec(n: Seq<char>) -> bool {
    ||| n == "report_title"@
    ||| n == "period_label"@
    ||| n == "generated_at"@
    ||| n == "period_summary"@
    ||| n == "total_count"@
    ||| n == "completed_count"@
    ||| n == "open_count"@
    ||| n == "overdue_count"@
    ||| n == "important_count"@
    ||| n == "completion_rate"@
    ||| n == "event_kind.name"@
    ||| n == "event_kind.total"@
    ||| n == "event_kind.completed"@
    ||| n == "category.name"@
    ||| n == "category.total"@
    ||| n == "category.completed"@
    ||| n == "completed_item.title"@
    ||| n == "completed_item.event_kind"@
    ||| n == "completed_item.completed_at"@
    ||| n == "open_item.title"@
    ||| n == "open_item.due_at"@
    ||| n == "open_item.status"@
    ||| n == "important_item.title"@
    ||| n == "important_item.status"@
    ||| n == "important_item.due_at"@
}

/// Whether a template may use the placeholder `name`.
pub fn supported_placeholder(name: &str) -> (r: bool)
    ensures
        r == supported_placeholder_spec(name@),
{
    str_eq(name, "report_title") || str_eq(name, "period_label") || str_eq(name, "generated_at") || str_eq(
        name,
        "period_summary",
    ) || str_eq(name, "total_count") || str_eq(name, "completed_count") || str_eq(name, "open_count")
        || str_eq(name, "overdue_count") || str_eq(name, "important_count") || str_eq(name, "completion_rate")
        || str_eq(name, "event_kind.name") || str_eq(name, "event_kind.total") || str_eq(
        name,
        "event_kind.completed",
    ) || str_eq(name, "category.name") || str_eq(name, "category.total") || str_eq(name, "category.completed")
        || str_eq(name, "completed_item.title") || str_eq(name, "completed_item.event_kind") || str_eq(
        name,
        "completed_item.completed_at",
    ) || str_eq(name, "open_item.title") || str_eq(name, "open_item.due_at") || str_eq(name, "open_item.status")
        || str_eq(name, "important_item.title") || str_eq(name, "important_item.status") || str_eq(
        name,
        "important_item.due_at",
    )
}

// ---------------------------------------------------------------------------
// Where list placeholders may stand
// ---------------------------------------------------------------------------
/// The five lists a template can repeat table rows for.
pub open spec fn list_names() -> Seq<Seq<char>> {
    seq!["event_kind"@, "category"@, "completed_item"@, "open_item"@, "important_item"@]
}

/// The names of the five lists, in the order they are filled.
pub fn collection_names() -> (r: Vec<&'static str>)
    ensures
        r@.len() == 5,
        forall|k: int| 0 <= k < 5 ==> (#[trigger] r@[k])@ == list_names()[k],
{
    vec!["event_kind", "category", "completed_item", "open_item", "important_item"]
}

/// `{{name.`, how every placeholder of a list begins.
pub open spec fn marker_of(collection: Seq<char>) -> Seq<char> {
    open_mark() + collection + seq!['.']
}

/// `<w:tr`, how a table row begins.
pub open spec fn row_open() -> Seq<char> {
    seq!['<', 'w', ':', 't', 'r']
}

/// `</w:tr>`, how a table row ends.
pub open spec fn row_close() -> Seq<char> {
    seq!['<', '/', 'w', ':', 't', 'r', '>']
}

/// A list placeholder at `p` stands outside a table row: no row opens before
/// it, no row closes after it, or the last row before it was already closed.
pub open spec fn outside_row(xml: Seq<char>, p: int) -> bool {
    let row_start = rfind_spec(xml, row_open(), p);
    let previous_end = rfind_spec(xml, row_close(), p);
    let row_end = find_spec(xml, row_close(), p);
    ||| row_start is None
    ||| row_end is None
    ||| (previous_end matches Some(e) && e > row_start->0)
}

/// Some placeholder beginning with `marker`, at or after `offset`, stands
/// outside a table row.
pub open spec fn misplaced_from(xml: Seq<char>, marker: Seq<char>, offset: int) -> bool
    decreases xml.len() + 1 - offset,
{
    if marker.len() == 0 {
        false
    } else {
        match find_spec(xml, marker, offset) {
            None => false,
            Some(p) => {
                proof {
                    lemma_find_spec_props(xml, marker, offset);
                }
                outside_row(xml, p) || misplaced_from(xml, marker, p + marker.len())
            },
        }
    }
}

/// The first list, from the `k`-th on, with a placeholder outside a table row.
pub open spec fn first_misplaced(xml: Seq<char>, k: int) -> Option<Seq<char>>
    decreases 5 - k,
{
    if k < 0 || k >= 5 {
        None
    } else if misplaced_from(xml, marker_of(list_names()[k]), 0) {
        Some(list_names()[k])
    } else {
        first_misplaced(xml, k + 1)
    }
}

/// How many of the five lists have a placeholder in `row`.
pub open spec fn lists_in_row(row: Seq<char>, k: int) -> nat
    decreases 5 - k,
{
    if k < 0 || k >= 5 {
        0
    } else {
        (if contains_seq(row, marker_of(list_names()[k])) {
            1nat
        } else {
            0nat
        }) + lists_in_row(row, k + 1)
    }
}

/// The message for a row that opens and never closes.
pub const INCOMPLETE_ROW_MESSAGE: &'static str = "Word 表格模板行结构不完整。";

/// The message for a row that mixes two lists.
pub const MIXED_ROW_MESSAGE: &'static str = "同一表格模板行不能混用两种事项列表占位符。";

/// The first problem with the table rows from `offset` on: a row that never
/// closes, or a row with placeholders of two lists.
pub open spec fn row_problem(xml: Seq<char>, offset: int) -> Option<Seq<char>>
    decreases xml.len() + 1 - offset,
{
    match find_spec(xml, row_open(), offset) {
        None => None,
        Some(start) => {
            proof {
                lemma_find_spec_props(xml, row_open(), offset);
            }
            match find_spec(xml, row_close(), start) {
                None => Some(INCOMPLETE_ROW_MESSAGE@),
                Some(close) => {
                    proof {
                        lemma_find_spec_props(xml, row_close(), start);
                    }
                    let end = close + 7;
                    if lists_in_row(xml.subrange(start, end), 0) > 1 {
                        Some(MIXED_ROW_MESSAGE@)
                    } else {
                        row_problem(xml, end)
                    }
                },
            }
        },
    }
}

/// What is wrong with where a template puts its list placeholders, if anything.
pub open spec fn structure_error_spec(xml: Seq<char>) -> Option<Seq<char>> {
    match first_misplaced(xml, 0) {
        Some(c) => Some(c + " 列表占位符必须放在 Word 表格模板行中。"@),
        None => row_problem(xml, 0),
    }
}

fn marker_chars(collection: &str) -> (r: Vec<char>)
    ensures
        r@ == marker_of(collection@),
{
    let mut out = vec!['{', '{'];
    let mut name = chars_of(collection);
    out.append(&mut name);
    out.push('.');
    out
}

fn has_misplaced(xml: &Vec<char>, marker: &Vec<char>) -> (r: bool)
    ensures
        r == misplaced_from(xml@, marker@, 0),
{
    if marker.len() == 0 {
        return false;
    }
    let open = vec!['<', 'w', ':', 't', 'r'];
    let close = vec!['<', '/', 'w', ':', 't', 'r', '>'];
    let mut offset: usize = 0;
    while offset <= xml.len()
        invariant
            offset <= xml@.len() + 1,
            marker@.len() > 0,
            open@ == row_open(),
            close@ == row_close(),
            misplaced_from(xml@, marker@, 0) == misplaced_from(xml@, marker@, offset as int),
        decreases xml@.len() + 1 - offset,
    {
        let position = match find_first(xml, marker, offset) {
            Some(p) => p,
            None => return false,
        };
        proof {
            lemma_find_spec_props(xml@, marker@, offset as int);
        }
        let row_start = find_last(xml, &open, position);
        let previous_end = find_last(xml, &close, position);
        let row_end = find_first(xml, &close, position);
        let outside = match row_start {
            None => true,
            Some(start) => match row_end {
                None => true,
                Some(_) => match previous_end {
                    Some(end) => end > start,
                    None => false,
                },
            },
        };
        if outside {
            return true;
        }
        offset = position + marker.len();
    }
    proof {
        assert(find_spec(xml@, marker@, offset as int) is None);
    }
    false
}

fn count_lists_in_row(row: &Vec<char>, names: &Vec<&'static str>) -> (r: usize)
    requires
        names@.len() == 5,
        forall|k: int| 0 <= k < 5 ==> (#[trigger] names@[k])@ == list_names()[k],
    ensures
        r == lists_in_row(row@, 0),
{
    let mut count: usize = 0;
    let mut k: usize = 5;
    while k > 0
        invariant
            k <= 5,
            names@.len() == 5,
            forall|m: int| 0 <= m < 5 ==> (#[trigger] names@[m])@ == list_names()[m],
            count == lists_in_row(row@, k as int),
            count <= 5 - k,
        decreases k,
    {
        k = k - 1;
        let marker = marker_chars(names[k]);
        proof {
            lemma_find_spec_contains(row@, marker@);
        }
        if find_first(row, &marker, 0).is_some() {
            count = count + 1;
        }
    }
    count
}

/// What is wrong with where a template puts its list placeholders: a list
/// placeholder outside a table row (the first list in order that has one),
/// a table row that never closes, or a row that mixes two lists.
pub fn collection_structure_error(xml: &str) -> (r: Option<String>)
    ensures
        match r {
            Some(m) => structure_error_spec(xml@) == Some(m@),
            None => structure_error_spec(xml@) is None,
        },
{
    let chars = chars_of(xml);
    let names = collection_names();
    let mut k: usize = 0;
    while k < 5
        invariant
            k <= 5,
            chars@ == xml@,
            names@.len() == 5,
            forall|m: int| 0 <= m < 5 ==> (#[trigger] names@[m])@ == list_names()[m],
            first_misplaced(xml@, 0) == first_misplaced(xml@, k as int),
        decreases 5 - k,
    {
        let marker = marker_chars(names[k]);
        if has_misplaced(&chars, &marker) {
            let mut message = owned(names[k]);
            message.append(" 列表占位符必须放在 Word 表格模板行中。");
            return Some(message);
        }
        k = k + 1;
    }
    let open = vec!['<', 'w', ':', 't', 'r'];
    let close = vec!['<', '/', 'w', ':', 't', 'r', '>'];
    let mut offset: usize = 0;
    while offset <= chars.len()
        invariant
            offset <= chars@.len() + 1,
            chars@ == xml@,
            open@ == row_open(),
            close@ == row_close(),
            names@.len() == 5,
            forall|m: int| 0 <= m < 5 ==> (#[trigger] names@[m])@ == list_names()[m],
            first_misplaced(xml@, 0) is None,
            row_problem(xml@, 0) == row_problem(xml@, offset as int),
        decreases chars@.len() + 1 - offset,
    {
        let start = match find_first(&chars, &open, offset) {
            Some(s) => s,
            None => return None,
        };
        proof {
            lemma_find_spec_props(chars@, row_open(), offset as int);
        }
        let close_at = match find_first(&chars, &close, start) {
            Some(c) => c,
            None => return Some(owned(INCOMPLETE_ROW_MESSAGE)),
        };
        proof {
            lemma_find_spec_props(chars@, row_close(), start as int);
        }
        let end = close_at + 7;
        let row = subvec(&chars, start, end);
        if count_lists_in_row(&row, &names) > 1 {
            return Some(owned(MIXED_ROW_MESSAGE));
        }
        offset = end;
    }
    proof {
        assert(find_spec(chars@, row_open(), offset as int) is None);
    }
    None
}

// ---------------------------------------------------------------------------
// The values filled into a template
// ---------------------------------------------------------------------------
/// The keys run in strictly increasing order.
pub open spec fn keys_sorted(s: Seq<(Seq<char>, Seq<char>)>) -> bool {
    forall|i: int, j: int| 0 <= i < j < s.len() ==> lex_lt(#[trigger] s[i].0, #[trigger] s[j].0)
}

/// Sets `key` to `value` in a list kept in key order: an existing key gets
/// the new value, a new key goes where the order puts it.
pub open spec fn pairs_insert(s: Seq<(Seq<char>, Seq<char>)>, key: Seq<char>, value: Seq<char>) -> Seq<
    (Seq<char>, Seq<char>),
>
    decreases s.len(),
{
    if s.len() == 0 {
        seq![(key, value)]
    } else if s[0].0 == key {
        seq![(key, value)] + s.drop_first()
    } else if lex_lt(key, s[0].0) {
        seq![(key, value)] + s
    } else {
        seq![s[0]] + pairs_insert(s.drop_first(), key, value)
    }
}

/// Text values keyed by name, walked in increasing key order (what a
/// `BTreeMap<String, String>` holds).
#[derive(Debug)]
pub struct FieldMap {
    entries: Vec<(String, String)>,
}

impl FieldMap {
    /// The entries, in key order.
    pub closed spec fn pairs(&self) -> Seq<(Seq<char>, Seq<char>)> {
        self.entries@.map_values(|e: (String, String)| (e.0@, e.1@))
    }

    #[verifier::type_invariant]
    closed spec fn keys_in_order(&self) -> bool {
        keys_sorted(self.pairs())
    }

    /// An empty map.
    pub fn new() -> (r: Self)
        ensures
            r.pairs() == Seq::<(Seq<char>, Seq<char>)>::empty(),
            keys_sorted(r.pairs()),
    {
        let r = FieldMap { entries: Vec::new() };
        assert(r.pairs() =~= Seq::<(Seq<char>, Seq<char>)>::empty());
        r
    }

    /// Sets `key` to `value`.
    pub fn insert(&mut self, key: String, value: String)
        ensures
            final(self).pairs() == pairs_insert(old(self).pairs(), key@, value@),
            keys_sorted(final(self).pairs()),
    {
        proof {
            use_type_invariant(&*self);
        }
        let ghost before = self.pairs();
        let key_chars = chars_of(key.as_str());
        let mut i: usize = 0;
        while i < self.entries.len()
            invariant
                i <= self.entries@.len(),
                before == self.pairs(),
                keys_sorted(before),
                key_chars@ == key@,
                forall|j: int| 0 <= j < i ==> lex_lt(#[trigger] before[j].0, key@),
            ensures
                i <= self.entries@.len(),
                forall|j: int| 0 <= j < i ==> lex_lt(#[trigger] before[j].0, key@),
                i < self.entries@.len() ==> lex_le(key@, before[i as int].0),
            decreases self.entries@.len() - i,
        {
            let here = chars_of(self.entries[i].0.as_str());
            if lex_le_exec(&key_chars, &here) {
                break;
            }
            proof {
                assert(before[i as int].0 == self.entries@[i as int].0@);
                lemma_lex_total(key@, before[i as int].0);
                lemma_lex_total(key@, key@);
            }
            i = i + 1;
        }
        proof {
            lemma_pairs_insert_at(before, key@, value@, i as int);
        }
        let mut entries = Vec::new();
        std::mem::swap(&mut entries, &mut self.entries);
        let ghost old_entries = entries@;
        if i < entries.len() && str_eq(entries[i].0.as_str(), key.as_str()) {
            entries.set(i, (key, value));
        } else {
            entries.insert(i, (key, value));
        }
        proof {
            let after = entries@.map_values(|e: (String, String)| (e.0@, e.1@));
            if i < old_entries.len() && old_entries[i as int].0@ == key@ {
                assert(after =~= before.update(i as int, (key@, value@)));
            } else {
                assert(after =~= before.subrange(0, i as int).push((key@, value@)) + before.subrange(
                    i as int,
                    before.len() as int,
                ));
            }
            lemma_pairs_insert_sorted(before, key@, value@);
        }
        self.entries = entries;
    }

    /// The entries, in key order, as text pairs.
    pub fn to_pairs(&self) -> (r: Vec<(String, String)>)
        ensures
            r@.map_values(|e: (String, String)| (e.0@, e.1@)) == self.pairs(),
    {
        let mut out: Vec<(String, String)> = Vec::new();
        let mut i: usize = 0;
        while i < self.entries.len()
            invariant
                i <= self.entries@.len(),
                out@.len() == i,
                forall|j: int| 0 <= j < i ==> (#[trigger] out@[j]).0@ == self.entries@[j].0@ && out@[j].1@
                    == self.entries@[j].1@,
            decreases self.entries@.len() - i,
        {
            let k = self.entries[i].0.clone();
            let v = self.entries[i].1.clone();
            out.push((k, v));
            i = i + 1;
        }
        assert(out@.map_values(|e: (String, String)| (e.0@, e.1@)) =~= self.pairs());
        out
    }
}

proof fn lemma_pairs_insert_at(s: Seq<(Seq<char>, Seq<char>)>, key: Seq<char>, value: Seq<char>, i: int)
    requires
        keys_sorted(s),
        0 <= i <= s.len(),
        forall|j: int| 0 <= j < i ==> lex_lt(#[trigger] s[j].0, key),
        i < s.len() ==> lex_le(key, s[i].0),
    ensures
        i < s.len() && s[i].0 == key ==> pairs_insert(s, key, value) == s.update(i, (key, value)),
        !(i < s.len() && s[i].0 == key) ==> pairs_insert(s, key, value) == s.subrange(0, i).push((key, value))
            + s.subrange(i, s.len() as int),
    decreases s.len(),
{
    if s.len() == 0 {
        assert(s.subrange(0, 0).push((key, value)) + s.subrange(0, 0) =~= seq![(key, value)]);
    } else if i == 0 {
        if s[0].0 == key {
            assert(seq![(key, value)] + s.drop_first() =~= s.update(0, (key, value)));
        } else {
            assert(s.subrange(0, 0).push((key, value)) + s.subrange(0, s.len() as int) =~= seq![(key, value)] + s);
        }
    } else {
        let t = s.drop_first();
        assert(lex_lt(s[0].0, key));
        assert(s[0].0 != key);
        if lex_lt(key, s[0].0) {
            lemma_lex_antisym(key, s[0].0);
        }
        assert forall|a: int, b: int| 0 <= a < b < t.len() implies lex_lt(#[trigger] t[a].0, #[trigger] t[b].0) by {
            assert(t[a] == s[a + 1] && t[b] == s[b + 1]);
        }
        assert forall|j: int| 0 <= j < i - 1 implies lex_lt(#[trigger] t[j].0, key) by {
            assert(t[j] == s[j + 1]);
        }
        lemma_pairs_insert_at(t, key, value, i - 1);
        if i < s.len() && s[i].0 == key {
            assert(seq![s[0]] + t.update(i - 1, (key, value)) =~= s.update(i, (key, value)));
        } else {
            assert(seq![s[0]] + (t.subrange(0, i - 1).push((key, value)) + t.subrange(i - 1, t.len() as int))
                =~= s.subrange(0, i).push((key, value)) + s.subrange(i, s.len() as int));
        }
    }
}

proof fn lemma_pairs_insert_sorted(s: Seq<(Seq<char>, Seq<char>)>, key: Seq<char>, value: Seq<char>)
    requires
        keys_sorted(s),
    ensures
        keys_sorted(pairs_insert(s, key, value)),
        forall|j: int|
            0 <= j < pairs_insert(s, key, value).len() ==> ((#[trigger] pairs_insert(s, key, value)[j]).0
                == key || exists|m: int| 0 <= m < s.len() && s[m].0 == pairs_insert(s, key, value)[j].0),
    decreases s.len(),
{
    let r = pairs_insert(s, key, value);
    if s.len() == 0 {
    } else if s[0].0 == key {
        assert forall|a: int, b: int| 0 <= a < b < r.len() implies lex_lt(#[trigger] r[a].0, #[trigger] r[b].0) by {
            if a == 0 {
                assert(s[0].0 == r[0].0);
                assert(r[b] == s[b]);
            } else {
                assert(r[a] == s[a] && r[b] == s[b]);
            }
        }
        assert forall|j: int| 0 <= j < r.len() implies ((#[trigger] r[j]).0 == key || exists|m: int|
            0 <= m < s.len() && s[m].0 == r[j].0) by {
            if j > 0 {
                assert(r[j] == s[j]);
            }
        }
    } else if lex_lt(key, s[0].0) {
        assert forall|a: int, b: int| 0 <= a < b < r.len() implies lex_lt(#[trigger] r[a].0, #[trigger] r[b].0) by {
            if a == 0 {
                assert(r[b] == s[b - 1]);
                if b - 1 > 0 {
                    lemma_lex_lt_trans(key, s[0].0, s[b - 1].0);
                }
            } else {
                assert(r[a] == s[a - 1] && r[b] == s[b - 1]);
            }
        }
        assert forall|j: int| 0 <= j < r.len() implies ((#[trigger] r[j]).0 == key || exists|m: int|
            0 <= m < s.len() && s[m].0 == r[j].0) by {
            if j > 0 {
                assert(r[j] == s[j - 1]);
            }
        }
    } else {
        let t = s.drop_first();
        assert forall|a: int, b: int| 0 <= a < b < t.len() implies lex_lt(#[trigger] t[a].0, #[trigger] t[b].0) by {
            assert(t[a] == s[a + 1] && t[b] == s[b + 1]);
        }
        lemma_pairs_insert_sorted(t, key, value);
        let rt = pairs_insert(t, key, value);
        lemma_lex_total(key, s[0].0);
        assert(lex_lt(s[0].0, key));
        assert forall|a: int, b: int| 0 <= a < b < r.len() implies lex_lt(#[trigger] r[a].0, #[trigger] r[b].0) by {
            if a == 0 {
                assert(r[b] == rt[b - 1]);
                if rt[b - 1].0 != key {
                    let m = choose|m: int| 0 <= m < t.len() && t[m].0 == rt[b - 1].0;
                    assert(t[m] == s[m + 1]);
                }
            } else {
                assert(r[a] == rt[a - 1] && r[b] == rt[b - 1]);
            }
        }
        assert forall|j: int| 0 <= j < r.len() implies ((#[trigger] r[j]).0 == key || exists|m: int|
            0 <= m < s.len() && s[m].0 == r[j].0) by {
            if j > 0 {
                assert(r[j] == rt[j - 1]);
                if rt[j - 1].0 != key {
                    let m = choose|m: int| 0 <= m < t.len() && t[m].0 == rt[j - 1].0;
                    assert(t[m] == s[m + 1]);
                }
            } else {
                assert(r[0] == s[0]);
            }
        }
    }
}

/// The rows of one list, each as its entries in key order.
pub open spec fn rows_view(rows: Seq<FieldMap>) -> Seq<Seq<(Seq<char>, Seq<char>)>> {
    rows.map_values(|f: FieldMap| f.pairs())
}

/// The rows given for `name`: those of the first entry with that name, or none.
pub open spec fn rows_for(
    entries: Seq<(Seq<char>, Seq<Seq<(Seq<char>, Seq<char>)>>)>,
    name: Seq<char>,
) -> Seq<Seq<(Seq<char>, Seq<char>)>>
    decreases entries.len(),
{
    if entries.len() == 0 {
        Seq::empty()
    } else if entries[0].0 == name {
        entries[0].1
    } else {
        rows_for(entries.drop_first(), name)
    }
}

/// The rows of each list, by list name (what a `BTreeMap` from names to rows
/// holds, as far as lookups go).
#[derive(Debug)]
pub struct CollectionRows {
    entries: Vec<(String, Vec<FieldMap>)>,
}

impl CollectionRows {
    /// The lists and their rows.
    pub closed spec fn lists(&self) -> Seq<(Seq<char>, Seq<Seq<(Seq<char>, Seq<char>)>>)> {
        self.entries@.map_values(|e: (String, Vec<FieldMap>)| (e.0@, rows_view(e.1@)))
    }

    /// No list has rows yet.
    pub fn new() -> (r: Self)
        ensures
            forall|name: Seq<char>| #[trigger] rows_for(r.lists(), name) == Seq::<Seq<(Seq<char>, Seq<char>)>>::empty(),
    {
        let r = CollectionRows { entries: Vec::new() };
        assert(r.lists() =~= Seq::<(Seq<char>, Seq<Seq<(Seq<char>, Seq<char>)>>)>::empty());
        r
    }

    /// Gives the list `name` the rows `rows`, leaving the other lists as they were.
    pub fn insert(&mut self, name: String, rows: Vec<FieldMap>)
        ensures
            rows_for(final(self).lists(), name@) == rows_view(rows@),
            forall|other: Seq<char>| other != name@ ==> #[trigger] rows_for(final(self).lists(), other) == rows_for(
                old(self).lists(),
                other,
            ),
    {
        let ghost before = self.lists();
        let ghost new_rows = rows_view(rows@);
        let mut i: usize = 0;
        while i < self.entries.len()
            invariant
                i <= self.entries@.len(),
                before == self.lists(),
                forall|j: int| 0 <= j < i ==> (#[trigger] before[j]).0 != name@,
            ensures
                i <= self.entries@.len(),
                forall|j: int| 0 <= j < i ==> (#[trigger] before[j]).0 != name@,
                i < self.entries@.len() ==> before[i as int].0 == name@,
            decreases self.entries@.len() - i,
        {
            assert(before[i as int].0 == self.entries@[i as int].0@);
            if str_eq(self.entries[i].0.as_str(), name.as_str()) {
                break;
            }
            i = i + 1;
        }
        let mut entries = Vec::new();
        std::mem::swap(&mut entries, &mut self.entries);
        if i < entries.len() {
            entries.set(i, (name, rows));
        } else {
            entries.push((name, rows));
        }
        self.entries = entries;
        proof {
            let after = self.lists();
            if i < before.len() {
                assert(after =~= before.update(i as int, (name@, new_rows)));
            } else {
                assert(after =~= before.push((name@, new_rows)));
            }
            lemma_rows_for_update(before, i as int, name@, new_rows);
        }
    }
}

proof fn lemma_rows_for_update(
    s: Seq<(Seq<char>, Seq<Seq<(Seq<char>, Seq<char>)>>)>,
    i: int,
    name: Seq<char>,
    rows: Seq<Seq<(Seq<char>, Seq<char>)>>,
)
    requires
        0 <= i <= s.len(),
        forall|j: int| 0 <= j < i ==> (#[trigger] s[j]).0 != name,
        i < s.len() ==> s[i].0 == name,
    ensures
        i < s.len() ==> rows_for(s.update(i, (name, rows)), name) == rows,
        i < s.len() ==> forall|o: Seq<char>| o != name ==> #[trigger] rows_for(s.update(i, (name, rows)), o) == rows_for(s, o),
        i == s.len() ==> rows_for(s.push((name, rows)), name) == rows,
        i == s.len() ==> forall|o: Seq<char>| o != name ==> #[trigger] rows_for(s.push((name, rows)), o) == rows_for(s, o),
    decreases s.len(),
{
    if s.len() == 0 {
        let p = s.push((name, rows));
        assert(p.drop_first() =~= s);
        assert forall|o: Seq<char>| o != name implies #[trigger] rows_for(p, o) == rows_for(s, o) by {
            assert(rows_for(p, o) == rows_for(p.drop_first(), o));
        }
    } else if i == 0 {
        let u = s.update(0, (name, rows));
        let t = s.drop_first();
        assert(u.drop_first() =~= t);
        assert forall|o: Seq<char>| o != name implies #[trigger] rows_for(u, o) == rows_for(s, o) by {
            assert(rows_for(u, o) == rows_for(u.drop_first(), o));
            assert(rows_for(s, o) == rows_for(t, o));
        }
    } else {
        let t = s.drop_first();
        assert forall|j: int| 0 <= j < i - 1 implies (#[trigger] t[j]).0 != name by {
            assert(t[j] == s[j + 1]);
        }
        if i < s.len() {
            assert(t[i - 1] == s[i]);
        }
        lemma_rows_for_update(t, i - 1, name, rows);
        assert(s[0].0 != name);
        if i < s.len() {
            let u = s.update(i, (name, rows));
            assert(u.drop_first() =~= t.update(i - 1, (name, rows)));
            assert(u[0] == s[0]);
            assert forall|o: Seq<char>| o != name implies #[trigger] rows_for(u, o) == rows_for(s, o) by {
                if s[0].0 != o {
                    assert(rows_for(u, o) == rows_for(u.drop_first(), o));
                    assert(rows_for(t.update(i - 1, (name, rows)), o) == rows_for(t, o));
                }
            }
        } else {
            let p = s.push((name, rows));
            assert(p.drop_first() =~= t.push((name, rows)));
            assert(p[0] == s[0]);
            assert forall|o: Seq<char>| o != name implies #[trigger] rows_for(p, o) == rows_for(s, o) by {
                if s[0].0 != o {
                    assert(rows_for(p, o) == rows_for(p.drop_first(), o));
                    assert(rows_for(t.push((name, rows)), o) == rows_for(t, o));
                }
            }
        }
    }
}

/// `{{list.field}}`
pub open spec fn field_mark(collection: Seq<char>, field: Seq<char>) -> Seq<char> {
    open_mark() + collection + seq!['.'] + field + close_mark()
}

/// A template row with the row's values put in for its placeholders, field by
/// field in key order, each value escaped.
pub open spec fn fill_row(template: Seq<char>, collection: Seq<char>, fields: Seq<(Seq<char>, Seq<char>)>) -> Seq<char>
    decreases fields.len(),
{
    if fields.len() == 0 {
        template
    } else {
        fill_row(
            crate::text::replace_seq(template, field_mark(collection, fields[0].0), escape_xml_seq(fields[0].1)),
            collection,
            fields.drop_first(),
        )
    }
}

/// One filled copy of the template row per row of the list, in order.
pub open spec fn fill_rows(template: Seq<char>, collection: Seq<char>, rows: Seq<Seq<(Seq<char>, Seq<char>)>>) -> Seq<char>
    decreases rows.len(),
{
    if rows.len() == 0 {
        Seq::empty()
    } else {
        fill_rows(template, collection, rows.drop_last()) + fill_row(template, collection, rows.last())
    }
}

/// One round of list expansion: the table row around the first placeholder
/// of the list is replaced by one filled copy per row. Fails when that
/// placeholder has no row around it.
pub open spec fn expand_once(xml: Seq<char>, collection: Seq<char>, rows: Seq<Seq<(Seq<char>, Seq<char>)>>) -> Result<
    Seq<char>,
    Seq<char>,
> {
    match find_spec(xml, marker_of(collection), 0) {
        None => Ok(xml),
        Some(at) => match rfind_spec(xml, row_open(), at) {
            None => Err(collection + " 占位符必须放在表格模板行中"@),
            Some(start) => match find_spec(xml, row_close(), at) {
                None => Err(collection + " 模板行结构不完整"@),
                Some(close) => Ok(
                    xml.subrange(0, start) + fill_rows(xml.subrange(start, close + 7), collection, rows)
                        + xml.subrange(close + 7, xml.len() as int),
                ),
            },
        },
    }
}

/// Expansion of a list, repeated while a placeholder of the list remains,
/// with at most `fuel` rounds (`None` when they do not suffice).
pub open spec fn expand_fuel(
    xml: Seq<char>,
    collection: Seq<char>,
    rows: Seq<Seq<(Seq<char>, Seq<char>)>>,
    fuel: nat,
) -> Option<Result<Seq<char>, Seq<char>>>
    decreases fuel,
{
    if find_spec(xml, marker_of(collection), 0) is None {
        Some(Ok(xml))
    } else if fuel == 0 {
        None
    } else {
        match expand_once(xml, collection, rows) {
            Err(e) => Some(Err(e)),
            Ok(next) => expand_fuel(next, collection, rows, (fuel - 1) as nat),
        }
    }
}

/// The result of expanding a list, when the repetition comes to an end.
pub open spec fn expansion(xml: Seq<char>, collection: Seq<char>, rows: Seq<Seq<(Seq<char>, Seq<char>)>>) -> Option<
    Result<Seq<char>, Seq<char>>,
> {
    if exists|f: nat| #[trigger] expand_fuel(xml, collection, rows, f) is Some {
        expand_fuel(xml, collection, rows, choose|f: nat| #[trigger] expand_fuel(xml, collection, rows, f) is Some)
    } else {
        None
    }
}

proof fn lemma_expand_fuel_stable(
    xml: Seq<char>,
    collection: Seq<char>,
    rows: Seq<Seq<(Seq<char>, Seq<char>)>>,
    f: nat,
    g: nat,
)
    requires
        expand_fuel(xml, collection, rows, f) is Some,
        f <= g,
    ensures
        expand_fuel(xml, collection, rows, g) == expand_fuel(xml, collection, rows, f),
    decreases f,
{
    if find_spec(xml, marker_of(collection), 0) is Some && f > 0 {
        if let Ok(next) = expand_once(xml, collection, rows) {
            lemma_expand_fuel_stable(next, collection, rows, (f - 1) as nat, (g - 1) as nat);
        }
    }
}

proof fn lemma_expansion_is(
    xml: Seq<char>,
    collection: Seq<char>,
    rows: Seq<Seq<(Seq<char>, Seq<char>)>>,
    f: nat,
)
    requires
        expand_fuel(xml, collection, rows, f) is Some,
    ensures
        expansion(xml, collection, rows) == expand_fuel(xml, collection, rows, f),
{
    let g = choose|g: nat| #[trigger] expand_fuel(xml, collection, rows, g) is Some;
    if f <= g {
        lemma_expand_fuel_stable(xml, collection, rows, f, g);
    } else {
        lemma_expand_fuel_stable(xml, collection, rows, g, f);
    }
}

fn field_pattern(collection: &Vec<char>, field: &str) -> (r: Vec<char>)
    ensures
        r@ == field_mark(collection@, field@),
        r@.len() > 0,
{
    let mut out = vec!['{', '{'];
    let mut c = subvec(collection, 0, collection.len());
    assert(collection@.subrange(0, collection@.len() as int) =~= collection@);
    out.append(&mut c);
    out.push('.');
    let mut f = chars_of(field);
    out.append(&mut f);
    out.push('}');
    out.push('}');
    assert(out@ =~= field_mark(collection@, field@));
    out
}

impl FieldMap {
    /// The template row with this row's values put in.
    fn fill(&self, template: &Vec<char>, collection: &Vec<char>) -> (r: Vec<char>)
        ensures
            r@ == fill_row(template@, collection@, self.pairs()),
    {
        let mut out = subvec(template, 0, template.len());
        assert(template@.subrange(0, template@.len() as int) =~= template@);
        let mut i: usize = 0;
        assert(self.pairs().subrange(0, self.pairs().len() as int) =~= self.pairs());
        while i < self.entries.len()
            invariant
                i <= self.entries@.len(),
                fill_row(template@, collection@, self.pairs()) == fill_row(
                    out@,
                    collection@,
                    self.pairs().subrange(i as int, self.pairs().len() as int),
                ),
            decreases self.entries@.len() - i,
        {
            let pattern = field_pattern(collection, self.entries[i].0.as_str());
            let escaped = escape_xml(self.entries[i].1.as_str());
            let value = chars_of(escaped.as_str());
            let next = crate::text::replace_all(&out, &pattern, &value);
            proof {
                let rest = self.pairs().subrange(i as int, self.pairs().len() as int);
                assert(rest[0] == self.pairs()[i as int]);
                assert(rest.drop_first() =~= self.pairs().subrange(i + 1, self.pairs().len() as int));
            }
            out = next;
            i = i + 1;
        }
        assert(self.pairs().subrange(i as int, self.pairs().len() as int) =~= Seq::<(Seq<char>, Seq<char>)>::empty());
        out
    }
}

/// One round of expanding a list in `current`: `None` when no placeholder
/// of the list is left, otherwise what `expand_once` gives.
fn expand_round(current: &Vec<char>, collection: &str, rows: &Vec<FieldMap>) -> (r: Option<Result<Vec<char>, String>>)
    ensures
        r is None <==> find_spec(current@, marker_of(collection@), 0) is None,
        r matches Some(Ok(next)) ==> expand_once(current@, collection@, rows_view(rows@)) == Ok::<
            Seq<char>,
            Seq<char>,
        >(next@),
        r matches Some(Err(m)) ==> expand_once(current@, collection@, rows_view(rows@)) == Err::<
            Seq<char>,
            Seq<char>,
        >(m@),
{
    let ghost rv = rows_view(rows@);
    let name = chars_of(collection);
    let marker = marker_chars(collection);
    let open = vec!['<', 'w', ':', 't', 'r'];
    let close = vec!['<', '/', 'w', ':', 't', 'r', '>'];
    assert(open@ =~= row_open());
    assert(close@ =~= row_close());
    let at = match find_first(current, &marker, 0) {
        Some(a) => a,
        None => return None,
    };
    proof {
        lemma_find_spec_props(current@, marker@, 0);
    }
    let start = match find_last(current, &open, at) {
        Some(s) => s,
        None => {
            let mut message = owned(collection);
            message.append(" 占位符必须放在表格模板行中");
            return Some(Err(message));
        },
    };
    proof {
        lemma_rfind_spec_props(current@, row_open(), at as int);
    }
    let close_at = match find_first(current, &close, at) {
        Some(c) => c,
        None => {
            let mut message = owned(collection);
            message.append(" 模板行结构不完整");
            return Some(Err(message));
        },
    };
    proof {
        lemma_find_spec_props(current@, row_close(), at as int);
    }
    let current_len = current.len();
    assert(close_at + 7 <= current_len);
    let end = close_at + 7;
    let template = subvec(current, start, end);
    let mut replacements: Vec<char> = Vec::new();
    let mut k: usize = 0;
    while k < rows.len()
        invariant
            k <= rows@.len(),
            rv == rows_view(rows@),
            name@ == collection@,
            replacements@ == fill_rows(template@, collection@, rv.subrange(0, k as int)),
        decreases rows@.len() - k,
    {
        let mut row = rows[k].fill(&template, &name);
        replacements.append(&mut row);
        proof {
            let next = rv.subrange(0, k as int + 1);
            assert(next.drop_last() =~= rv.subrange(0, k as int));
            assert(next.last() == rows@[k as int].pairs());
        }
        k = k + 1;
    }
    assert(rv.subrange(0, rows@.len() as int) =~= rv);
    let mut next = subvec(current, 0, start);
    next.append(&mut replacements);
    let mut tail = subvec(current, end, current_len);
    next.append(&mut tail);
    assert(expand_once(current@, collection@, rv) == Ok::<Seq<char>, Seq<char>>(next@));
    Some(Ok(next))
}

fn expand_collection_rows(xml: Vec<char>, collection: &str, rows: &Vec<FieldMap>) -> (r: Result<Vec<char>, String>)
    requires
        expansion(xml@, collection@, rows_view(rows@)) is Some,
    ensures
        match r {
            Ok(out) => expansion(xml@, collection@, rows_view(rows@)) == Some(Ok::<Seq<char>, Seq<char>>(out@)),
            Err(m) => expansion(xml@, collection@, rows_view(rows@)) == Some(Err::<Seq<char>, Seq<char>>(m@)),
        },
{
    let ghost rv = rows_view(rows@);
    let ghost fuel = choose|f: nat| #[trigger] expand_fuel(xml@, collection@, rv, f) is Some;
    proof {
        lemma_expansion_is(xml@, collection@, rv, fuel);
    }
    let ghost target = expand_fuel(xml@, collection@, rv, fuel);
    let mut current = xml;
    let ghost mut left: nat = fuel;
    loop
        invariant
            target is Some,
            target == expansion(xml@, collection@, rv),
            expand_fuel(current@, collection@, rv, left) == target,
            rv == rows_view(rows@),
        decreases left,
    {
        match expand_round(&current, collection, rows) {
            None => return Ok(current),
            Some(Err(m)) => return Err(m),
            Some(Ok(next)) => {
                proof {
                    assert(left > 0);
                    left = (left - 1) as nat;
                }
                current = next;
            },
        }
    }
}

/// Expands a list with at most `fuel` rounds: `None` when they do not
/// suffice.
fn expand_rows_within(xml: Vec<char>, collection: &str, rows: &Vec<FieldMap>, fuel: u64) -> (r: Option<
    Result<Vec<char>, String>,
>)
    ensures
        match r {
            None => expand_fuel(xml@, collection@, rows_view(rows@), fuel as nat) is None,
            Some(Ok(out)) => expand_fuel(xml@, collection@, rows_view(rows@), fuel as nat) == Some(
                Ok::<Seq<char>, Seq<char>>(out@),
            ),
            Some(Err(m)) => expand_fuel(xml@, collection@, rows_view(rows@), fuel as nat) == Some(
                Err::<Seq<char>, Seq<char>>(m@),
            ),
        },
{
    let ghost rv = rows_view(rows@);
    let ghost target = expand_fuel(xml@, collection@, rv, fuel as nat);
    let mut current = xml;
    let mut left: u64 = fuel;
    loop
        invariant
            expand_fuel(current@, collection@, rv, left as nat) == target,
            target == expand_fuel(xml@, collection@, rv, fuel as nat),
            rv == rows_view(rows@),
        decreases left,
    {
        match expand_round(&current, collection, rows) {
            None => return Some(Ok(current)),
            Some(_) if left == 0 => return None,
            Some(Err(m)) => return Some(Err(m)),
            Some(Ok(next)) => {
                left = left - 1;
                current = next;
            },
        }
    }
}

/// Whether filling the lists of `xml` comes to an end within `rounds`
/// repetitions of each list's row: when it does, `render_document_xml` may
/// be called on it.
pub fn render_ends_within(xml: &str, collections: &CollectionRows, rounds: u64) -> (r: bool)
    ensures
        r ==> render_lists(xml@, collections.lists(), 0) is Some,
{
    let ghost lists = collections.lists();
    let mut current = chars_of(xml);
    let names = collection_names();
    let empty: Vec<FieldMap> = Vec::new();
    let mut k: usize = 0;
    while k < 5
        invariant
            k <= 5,
            names@.len() == 5,
            forall|m: int| 0 <= m < 5 ==> (#[trigger] names@[m])@ == list_names()[m],
            lists == collections.lists(),
            empty@.len() == 0,
            render_lists(xml@, lists, 0) == render_lists(current@, lists, k as int),
        decreases 5 - k,
    {
        let rows = match collections.rows(names[k]) {
            Some(v) => v,
            None => &empty,
        };
        proof {
            if rows_view(rows@) != rows_for(lists, names@[k as int]@) {
                assert(rows_view(rows@) =~= Seq::<Seq<(Seq<char>, Seq<char>)>>::empty());
            }
        }
        match expand_rows_within(current, names[k], rows, rounds) {
            None => return false,
            Some(Err(_)) => {
                proof {
                    lemma_expansion_is(current@, names@[k as int]@, rows_view(rows@), rounds as nat);
                }
                return true;
            },
            Some(Ok(next)) => {
                proof {
                    lemma_expansion_is(current@, names@[k as int]@, rows_view(rows@), rounds as nat);
                }
                current = next;
            },
        }
        k = k + 1;
    }
    true
}

impl CollectionRows {
    /// The rows given for `name`, if any were.
    pub fn rows(&self, name: &str) -> (r: Option<&Vec<FieldMap>>)
        ensures
            match r {
                Some(v) => rows_view(v@) == rows_for(self.lists(), name@),
                None => rows_for(self.lists(), name@) == Seq::<Seq<(Seq<char>, Seq<char>)>>::empty(),
            },
    {
        let mut i: usize = 0;
        assert(self.lists().subrange(0, self.lists().len() as int) =~= self.lists());
        while i < self.entries.len()
            invariant
                i <= self.entries@.len(),
                rows_for(self.lists(), name@) == rows_for(self.lists().subrange(i as int, self.lists().len() as int), name@),
            decreases self.entries@.len() - i,
        {
            let ghost rest = self.lists().subrange(i as int, self.lists().len() as int);
            assert(rest[0] == self.lists()[i as int]);
            if str_eq(self.entries[i].0.as_str(), name) {
                return Some(&self.entries[i].1);
            }
            assert(rest.drop_first() =~= self.lists().subrange(i + 1, self.lists().len() as int));
            i = i + 1;
        }
        None
    }
}

/// The document after the rows of the five lists, taken in order from the
/// `k`-th, have been expanded; `None` when an expansion never ends.
pub open spec fn render_lists(
    xml: Seq<char>,
    lists: Seq<(Seq<char>, Seq<Seq<(Seq<char>, Seq<char>)>>)>,
    k: int,
) -> Option<Result<Seq<char>, Seq<char>>>
    decreases 5 - k,
{
    if k < 0 || k >= 5 {
        Some(Ok(xml))
    } else {
        match expansion(xml, list_names()[k], rows_for(lists, list_names()[k])) {
            None => None,
            Some(Err(e)) => Some(Err(e)),
            Some(Ok(next)) => render_lists(next, lists, k + 1),
        }
    }
}

/// `{{name}}`
pub open spec fn scalar_mark(name: Seq<char>) -> Seq<char> {
    open_mark() + name + close_mark()
}

/// The document with the report's own values put in, name by name in key
/// order, each value escaped.
pub open spec fn fill_scalars(xml: Seq<char>, pairs: Seq<(Seq<char>, Seq<char>)>) -> Seq<char>
    decreases pairs.len(),
{
    if pairs.len() == 0 {
        xml
    } else {
        fill_scalars(crate::text::replace_seq(xml, scalar_mark(pairs[0].0), escape_xml_seq(pairs[0].1)), pairs.drop_first())
    }
}

/// The names joined with `sep` between them.
pub open spec fn join_with(names: Seq<Seq<char>>, sep: Seq<char>) -> Seq<char>
    decreases names.len(),
{
    if names.len() == 0 {
        Seq::empty()
    } else if names.len() == 1 {
        names[0]
    } else {
        join_with(names.drop_last(), sep) + sep + names.last()
    }
}

/// The start of the message for placeholders left over after filling.
pub const LEFTOVER_MESSAGE: &'static str = "模板占位符没有完整替换：";

/// What filling a template gives: the first failed list expansion, or the
/// filled document, refused when placeholders remain in it (their names,
/// distinct and in increasing order, are listed in the message).
pub open spec fn rendered(
    r: AppResult<String>,
    xml: Seq<char>,
    scalars: Seq<(Seq<char>, Seq<char>)>,
    lists: Seq<(Seq<char>, Seq<Seq<(Seq<char>, Seq<char>)>>)>,
) -> bool {
    match render_lists(xml, lists, 0) {
        None => false,
        Some(Err(m)) => r matches Err(e) && crate::error::is_validation(e, m),
        Some(Ok(expanded)) => {
            let filled = fill_scalars(expanded, scalars);
            if placeholder_list(filled).len() == 0 {
                r matches Ok(out) && out@ == filled
            } else {
                r matches Err(e) && exists|names: Seq<String>|
                    #[trigger] strictly_sorted(names) && (forall|n: Seq<char>|
                        names_of(names).contains(n) <==> placeholder_list(filled).contains(n))
                        && crate::error::is_validation(e, LEFTOVER_MESSAGE@ + join_with(names_of(names), "、"@))
            }
        },
    }
}

fn join_names(names: &Vec<String>, sep: &str) -> (r: String)
    ensures
        r@ == join_with(names_of(names@), sep@),
{
    let mut out = String::new();
    let mut i: usize = 0;
    while i < names.len()
        invariant
            i <= names@.len(),
            out@ == join_with(names_of(names@.subrange(0, i as int)), sep@),
        decreases names@.len() - i,
    {
        proof {
            let next = names_of(names@.subrange(0, i as int + 1));
            assert(next.drop_last() =~= names_of(names@.subrange(0, i as int)));
            assert(next.last() == names@[i as int]@);
            if i == 0 {
                assert(next =~= seq![names@[0]@]);
            }
        }
        if i > 0 {
            out.append(sep);
        }
        out.append(names[i].as_str());
        proof {
            if i == 0 {
                assert(out@ =~= names@[0]@);
            }
        }
        i = i + 1;
    }
    assert(names@.subrange(0, names@.len() as int) =~= names@);
    out
}

/// Fills a template's document text: each list's table row is repeated once
/// per row with the row's values put in, then the report's own values are put
/// in; placeholders that remain are refused.
pub fn render_document_xml(xml: &str, scalar: &FieldMap, collections: &CollectionRows) -> (r: AppResult<String>)
    requires
        render_lists(xml@, collections.lists(), 0) is Some,
    ensures
        rendered(r, xml@, scalar.pairs(), collections.lists()),
{
    let ghost lists = collections.lists();
    let mut current = chars_of(xml);
    let names = collection_names();
    let empty: Vec<FieldMap> = Vec::new();
    let mut k: usize = 0;
    while k < 5
        invariant
            k <= 5,
            names@.len() == 5,
            forall|m: int| 0 <= m < 5 ==> (#[trigger] names@[m])@ == list_names()[m],
            lists == collections.lists(),
            empty@.len() == 0,
            render_lists(xml@, lists, 0) == render_lists(current@, lists, k as int),
            render_lists(xml@, lists, 0) is Some,
        decreases 5 - k,
    {
        let rows = match collections.rows(names[k]) {
            Some(v) => v,
            None => &empty,
        };
        proof {
            if rows_view(rows@) != rows_for(lists, names@[k as int]@) {
                assert(rows_view(rows@) =~= Seq::<Seq<(Seq<char>, Seq<char>)>>::empty());
            }
        }
        match expand_collection_rows(current, names[k], rows) {
            Err(m) => return Err(AppError::Validation(m)),
            Ok(next) => {
                current = next;
            },
        }
        k = k + 1;
    }
    let ghost expanded = current@;
    let mut i: usize = 0;
    assert(scalar.pairs().subrange(0, scalar.pairs().len() as int) =~= scalar.pairs());
    while i < scalar.entries.len()
        invariant
            i <= scalar.entries@.len(),
            fill_scalars(expanded, scalar.pairs()) == fill_scalars(
                current@,
                scalar.pairs().subrange(i as int, scalar.pairs().len() as int),
            ),
        decreases scalar.entries@.len() - i,
    {
        let mut pattern = vec!['{', '{'];
        let mut key = chars_of(scalar.entries[i].0.as_str());
        pattern.append(&mut key);
        pattern.push('}');
        pattern.push('}');
        let escaped = escape_xml(scalar.entries[i].1.as_str());
        let value = chars_of(escaped.as_str());
        proof {
            let rest = scalar.pairs().subrange(i as int, scalar.pairs().len() as int);
            assert(rest[0] == scalar.pairs()[i as int]);
            assert(rest.drop_first() =~= scalar.pairs().subrange(i + 1, scalar.pairs().len() as int));
            assert(pattern@ =~= scalar_mark(rest[0].0));
        }
        current = crate::text::replace_all(&current, &pattern, &value);
        i = i + 1;
    }
    assert(scalar.pairs().subrange(i as int, scalar.pairs().len() as int) =~= Seq::<(Seq<char>, Seq<char>)>::empty());
    let rendered_text = string_from_chars(&current);
    let remaining = collect_placeholders(rendered_text.as_str());
    if remaining.len() == 0 {
        proof {
            let filled = current@;
            if placeholder_list(filled).len() > 0 {
                assert(placeholder_list(filled).contains(placeholder_list(filled)[0]));
                assert(!names_of(remaining@).contains(placeholder_list(filled)[0]));
            }
        }
        Ok(rendered_text)
    } else {
        let mut message = owned(LEFTOVER_MESSAGE);
        message.append(join_names(&remaining, "、").as_str());
        proof {
            let filled = current@;
            assert(names_of(remaining@)[0] == remaining@[0]@);
            assert(names_of(remaining@).contains(remaining@[0]@));
            assert(placeholder_list(filled).contains(remaining@[0]@));
            assert(strictly_sorted(remaining@));
        }
        Err(AppError::Validation(message))
    }
}

// ---------------------------------------------------------------------------
// Requests, template previews and the reporting period
// ---------------------------------------------------------------------------
/// What the user asked to summarise and where.
#[derive(Debug, Clone)]
pub struct SummaryRequest {
    pub period: String,
    pub year: i32,
    pub month: Option<u32>,
    pub quarter: Option<u32>,
    pub template_path: String,
    pub output_path: String,
}

/// What a check of a Word template found.
#[derive(Debug, Clone)]
pub struct SummaryTemplatePreview {
    pub template_path: String,
    pub placeholders: Vec<String>,
    pub unsupported_placeholders: Vec<String>,
    pub valid: bool,
    pub message: String,
}

/// What a generated summary holds.
#[derive(Debug, Clone)]
pub struct SummaryResult {
    pub path: String,
    pub item_count: usize,
    pub completed_count: usize,
    pub open_count: usize,
    pub overdue_count: usize,
    pub important_count: usize,
    pub period_label: String,
}

/// The names a template uses that are not supported, in order.
pub open spec fn unsupported_of(names: Seq<String>) -> Seq<String>
    decreases names.len(),
{
    if names.len() == 0 {
        Seq::empty()
    } else if supported_placeholder_spec(names.last()@) {
        unsupported_of(names.drop_last())
    } else {
        unsupported_of(names.drop_last()).push(names.last())
    }
}

/// The verdict on a template with these placeholders and this structure
/// problem: usable only with placeholders, all supported, and no problem.
pub open spec fn template_message(count: nat, unsupported: nat, structure: Option<Seq<char>>) -> Seq<char> {
    if count == 0 {
        "模板中没有找到受支持的占位符。"@
    } else if unsupported == 0 {
        match structure {
            Some(m) => m,
            None => "已识别 "@ + crate::text::decimal_seq(count) + " 个占位符，可以生成小结。"@,
        }
    } else {
        "有 "@ + crate::text::decimal_seq(unsupported) + " 个占位符暂不支持，请修改模板后重试。"@
    }
}

/// Checks the document text of a template: which placeholders it uses, which
/// of them are not supported, whether its list placeholders stand right, and
/// whether it can be used.
pub fn preview_template(template_path: &str, xml: &str) -> (r: SummaryTemplatePreview)
    ensures
        r.template_path@ == template_path@,
        strictly_sorted(r.placeholders@),
        forall|n: Seq<char>| names_of(r.placeholders@).contains(n) <==> placeholder_list(xml@).contains(n),
        r.unsupported_placeholders@ == unsupported_of(r.placeholders@),
        r.valid == (r.placeholders@.len() > 0 && r.unsupported_placeholders@.len() == 0
            && structure_error_spec(xml@) is None),
        r.message@ == template_message(
            r.placeholders@.len(),
            r.unsupported_placeholders@.len(),
            structure_error_spec(xml@),
        ),
{
    let placeholders = collect_placeholders(xml);
    let mut unsupported: Vec<String> = Vec::new();
    let mut i: usize = 0;
    while i < placeholders.len()
        invariant
            i <= placeholders@.len(),
            unsupported@ == unsupported_of(placeholders@.subrange(0, i as int)),
        decreases placeholders@.len() - i,
    {
        proof {
            let next = placeholders@.subrange(0, i as int + 1);
            assert(next.drop_last() =~= placeholders@.subrange(0, i as int));
        }
        if !supported_placeholder(placeholders[i].as_str()) {
            unsupported.push(placeholders[i].clone());
        }
        i = i + 1;
    }
    assert(placeholders@.subrange(0, placeholders@.len() as int) =~= placeholders@);
    let structure_error = collection_structure_error(xml);
    let valid = placeholders.len() > 0 && unsupported.len() == 0 && structure_error.is_none();
    let message = if placeholders.len() == 0 {
        owned("模板中没有找到受支持的占位符。")
    } else if unsupported.len() == 0 {
        match structure_error {
            Some(m) => m,
            None => {
                let mut m = owned("已识别 ");
                m.append(crate::text::u64_to_string(placeholders.len() as u64).as_str());
                m.append(" 个占位符，可以生成小结。");
                m
            },
        }
    } else {
        let mut m = owned("有 ");
        m.append(crate::text::u64_to_string(unsupported.len() as u64).as_str());
        m.append(" 个占位符暂不支持，请修改模板后重试。");
        m
    };
    SummaryTemplatePreview {
        template_path: owned(template_path),
        placeholders,
        unsupported_placeholders: unsupported,
        valid,
        message,
    }
}

/// The extension `std::path::Path` reads off a path (`Path::extension`).
pub uninterp spec fn std_path_extension(path: Seq<char>) -> Option<Seq<char>>;

/// The extension of a path, as `std::path::Path::extension` finds it.
#[verifier::external_body]
pub(crate) fn path_extension(path: &str) -> (r: Option<String>)
    ensures
        crate::schedule::opt_view(r) == std_path_extension(path@),
{
    std::path::Path::new(path).extension().and_then(|value| value.to_str()).map(|value| value.to_string())
}

/// The path names a `.docx` file, in any letter case.
pub open spec fn is_docx(path: Seq<char>) -> bool {
    std_path_extension(path) matches Some(e) && e.map_values(|c: char| crate::text::ascii_lower(c)) == "docx"@
}

fn docx_path(path: &str) -> (r: bool)
    ensures
        r == is_docx(path@),
{
    match path_extension(path) {
        None => false,
        Some(e) => {
            let chars = chars_of(e.as_str());
            let lower = crate::text::to_ascii_lowercase(&chars);
            let text = string_from_chars(&lower);
            str_eq(text.as_str(), "docx")
        },
    }
}

/// Checks a summary request before anything is read: the period kind, both
/// files being Word documents, and the output not overwriting the template.
pub open spec fn request_problem(request: SummaryRequest) -> Option<Seq<char>> {
    if !(request.period@ == "MONTH"@ || request.period@ == "QUARTER"@) {
        Some("请选择月度或季度小结"@)
    } else if !is_docx(request.template_path@) {
        Some("请选择有效的 Word 模板（.docx）"@)
    } else if !is_docx(request.output_path@) {
        Some("小结保存位置必须使用 .docx 扩展名"@)
    } else if crate::startup::std_path_eq(request.template_path@, request.output_path@) {
        Some("请为小结选择不同于模板的保存位置"@)
    } else {
        None
    }
}

/// Refuses a summary request whose period kind or files are unusable.
pub fn validate_summary_request(request: &SummaryRequest) -> (r: AppResult<()>)
    ensures
        match request_problem(*request) {
            None => r is Ok,
            Some(m) => r matches Err(e) && crate::error::is_validation(e, m),
        },
{
    if !(str_eq(request.period.as_str(), "MONTH") || str_eq(request.period.as_str(), "QUARTER")) {
        return Err(crate::error::validation("请选择月度或季度小结"));
    }
    if !docx_path(request.template_path.as_str()) {
        return Err(crate::error::validation("请选择有效的 Word 模板（.docx）"));
    }
    if !docx_path(request.output_path.as_str()) {
        return Err(crate::error::validation("小结保存位置必须使用 .docx 扩展名"));
    }
    if crate::startup::same_path(request.template_path.as_str(), request.output_path.as_str()) {
        return Err(crate::error::validation("请为小结选择不同于模板的保存位置"));
    }
    Ok(())
}

/// The first and the following-period first day of a summary period, with its
/// label; or the message refusing the request.
pub open spec fn period_dates(request: SummaryRequest) -> Result<(crate::clock::LocalDate, crate::clock::LocalDate, Seq<char>), Seq<char>> {
    let year = request.year as int;
    let first = if request.period@ == "MONTH"@ {
        match request.month {
            Some(m) if 1 <= m <= 12 => Ok((m as int, 1int, crate::text::signed_decimal(year) + " 年 "@ + crate::text::decimal_seq(m as nat) + " 月"@)),
            _ => Err("请选择有效月份"@),
        }
    } else if request.period@ == "QUARTER"@ {
        match request.quarter {
            Some(q) if 1 <= q <= 4 => Ok(((q - 1) * 3 + 1, 3int, crate::text::signed_decimal(year) + " 年第 "@ + crate::text::decimal_seq(q as nat) + " 季度"@)),
            _ => Err("请选择有效季度"@),
        }
    } else {
        Err("请选择月度或季度小结"@)
    };
    match first {
        Err(m) => Err(m),
        Ok((start_month, months, label)) => {
            let (end_year, end_month) = if start_month + months > 12 {
                (year + 1, start_month + months - 12)
            } else {
                (year, start_month + months)
            };
            if year < crate::clock::MIN_YEAR || year > crate::clock::MAX_YEAR || end_year > crate::clock::MAX_YEAR {
                Err("小结周期无效"@)
            } else {
                Ok((
                    crate::clock::LocalDate { year: year as i32, month: start_month as u32, day: 1 },
                    crate::clock::LocalDate { year: end_year as i32, month: end_month as u32, day: 1 },
                    label,
                ))
            }
        },
    }
}

/// A monthly summary runs from the first of its month to the first of the
/// next month (January of the next year after December); a quarterly one
/// from the first of the quarter's first month, `3q - 2`, to the first of
/// month `3q + 1` (January of the next year for the fourth quarter). Both
/// are granted for every year of the supported range that leaves room for
/// the next year.
pub proof fn lemma_period_dates(request: SummaryRequest)
    ensures
        ({
            let y = request.year as int;
            let m = request.month->0;
            request.period@ == "MONTH"@ && request.month is Some && 1 <= m <= 12
                && crate::clock::MIN_YEAR <= y && y + 1 <= crate::clock::MAX_YEAR ==> (period_dates(
                request,
            ) matches Ok((s, e, _)) && s.year == y && s.month == m && s.day == 1 && e.day == 1 && (
            if m == 12 {
                e.year == y + 1 && e.month == 1
            } else {
                e.year == y && e.month == m + 1
            }))
        }),
        ({
            let y = request.year as int;
            let q = request.quarter->0;
            request.period@ == "QUARTER"@ && request.quarter is Some && 1 <= q <= 4
                && crate::clock::MIN_YEAR <= y && y + 1 <= crate::clock::MAX_YEAR ==> (period_dates(
                request,
            ) matches Ok((s, e, _)) && s.year == y && s.month == 3 * q - 2 && s.day == 1 && e.day
                == 1 && (if q == 4 {
                e.year == y + 1 && e.month == 1
            } else {
                e.year == y && e.month == 3 * q + 1
            }))
        }),
{
    reveal_strlit("MONTH");
    reveal_strlit("QUARTER");
    assert("QUARTER"@[0] != "MONTH"@[0]);
}

/// The first instant a local-time lookup lists (what chrono's `earliest`
/// gives), if the time exists.
pub open spec fn earliest(l: crate::clock::LocalLookup) -> Option<i64> {
    match l {
        crate::clock::LocalLookup::Single(x) => Some(x),
        crate::clock::LocalLookup::Ambiguous(a, _) => Some(a),
        crate::clock::LocalLookup::Missing => None,
    }
}

/// The period's bounds in UTC seconds from how the local time zone maps the
/// start and the end midnight.
pub fn bounds_from_lookups(start: crate::clock::LocalLookup, end: crate::clock::LocalLookup) -> (r: AppResult<(i64, i64)>)
    ensures
        match earliest(start) {
            None => r matches Err(e) && crate::error::is_validation(e, "小结开始时间无效"@),
            Some(s) => match earliest(end) {
                None => r matches Err(e) && crate::error::is_validation(e, "小结结束时间无效"@),
                Some(t) => r == Ok::<(i64, i64), AppError>((s, t)),
            },
        },
{
    let s = match start {
        crate::clock::LocalLookup::Single(x) => x,
        crate::clock::LocalLookup::Ambiguous(a, _) => a,
        crate::clock::LocalLookup::Missing => return Err(crate::error::validation("小结开始时间无效")),
    };
    let t = match end {
        crate::clock::LocalLookup::Single(x) => x,
        crate::clock::LocalLookup::Ambiguous(a, _) => a,
        crate::clock::LocalLookup::Missing => return Err(crate::error::validation("小结结束时间无效")),
    };
    Ok((s, t))
}

/// The summary period as UTC seconds `[start, end)` and its label: a month,
/// or a quarter, from local midnight of its first day to local midnight of
/// the first day after it. Where the local time zone skips midnight the
/// period is refused; where midnight occurs twice, the earlier one counts.
pub fn period_bounds(request: &SummaryRequest) -> (r: AppResult<(i64, i64, String)>)
    ensures
        match period_dates(*request) {
            Err(m) => r matches Err(e) && crate::error::is_validation(e, m),
            Ok((sd, ed, label)) => match r {
                Ok((s, t, l)) => l@ == label && crate::clock::within_offset(
                    (crate::clock::LocalDateTime { date: sd, seconds: 0 }),
                    s as int,
                ) && crate::clock::within_offset(
                    (crate::clock::LocalDateTime { date: ed, seconds: 0 }),
                    t as int,
                ),
                Err(e) => crate::error::is_validation(e, "小结开始时间无效"@) || crate::error::is_validation(
                    e,
                    "小结结束时间无效"@,
                ),
            },
        },
{
    let year = request.year;
    let (start_month, months, label): (u32, u32, String) = if str_eq(request.period.as_str(), "MONTH") {
        match request.month {
            Some(m) => {
                if 1 <= m && m <= 12 {
                    let mut label = crate::text::i64_to_string(year as i64);
                    label.append(" 年 ");
                    label.append(crate::text::u64_to_string(m as u64).as_str());
                    label.append(" 月");
                    (m, 1, label)
                } else {
                    return Err(crate::error::validation("请选择有效月份"));
                }
            },
            None => return Err(crate::error::validation("请选择有效月份")),
        }
    } else if str_eq(request.period.as_str(), "QUARTER") {
        match request.quarter {
            Some(q) => {
                if 1 <= q && q <= 4 {
                    let mut label = crate::text::i64_to_string(year as i64);
                    label.append(" 年第 ");
                    label.append(crate::text::u64_to_string(q as u64).as_str());
                    label.append(" 季度");
                    ((q - 1) * 3 + 1, 3, label)
                } else {
                    return Err(crate::error::validation("请选择有效季度"));
                }
            },
            None => return Err(crate::error::validation("请选择有效季度")),
        }
    } else {
        return Err(crate::error::validation("请选择月度或季度小结"));
    };
    if year < crate::clock::MIN_YEAR || year > crate::clock::MAX_YEAR {
        return Err(crate::error::validation("小结周期无效"));
    }
    let (end_year, end_month): (i32, u32) = if start_month + months > 12 {
        (year + 1, start_month + months - 12)
    } else {
        (year, start_month + months)
    };
    if end_year > crate::clock::MAX_YEAR {
        return Err(crate::error::validation("小结周期无效"));
    }
    let start = crate::clock::LocalDateTime {
        date: crate::clock::LocalDate { year, month: start_month, day: 1 },
        seconds: 0,
    };
    let end = crate::clock::LocalDateTime {
        date: crate::clock::LocalDate { year: end_year, month: end_month, day: 1 },
        seconds: 0,
    };
    let start_lookup = crate::clock::lookup_local(start);
    let end_lookup = crate::clock::lookup_local(end);
    match bounds_from_lookups(start_lookup, end_lookup) {
        Ok((s, t)) => Ok((s, t, label)),
        Err(e) => Err(e),
    }
}

/// An instant a stored text reads as, if it reads as one.
pub open spec fn instant_of(text: Seq<char>) -> Option<i64> {
    crate::clock::chrono_rfc3339_seconds(text)
}

/// The instant lies in `[start, end)`.
pub open spec fn in_window(t: Option<i64>, start: i64, end: i64) -> bool {
    t matches Some(x) && start <= x && x < end
}

/// The instant is earlier than `end`.
pub open spec fn due_before(t: Option<i64>, end: i64) -> bool {
    t matches Some(x) && x < end
}

/// An item belongs to a period when it was created, was due or was completed
/// within it, or when it is still open and fell due before the period ended.
pub open spec fn item_in_period_spec(item: Item, start: i64, end: i64) -> bool {
    ||| in_window(instant_of(item.created_at@), start, end)
    ||| in_window(instant_of(item.due_at@), start, end)
    ||| (item.completed_at matches Some(c) && in_window(instant_of(c@), start, end))
    ||| (item.status@ == "OPEN"@ && due_before(instant_of(item.due_at@), end))
}

/// Whether an item belongs to the period `[start, end)`.
pub fn item_in_period(item: &Item, start: i64, end: i64) -> (r: bool)
    ensures
        r == item_in_period_spec(*item, start, end),
{
    let created = crate::clock::parse_rfc3339(item.created_at.as_str());
    let due = crate::clock::parse_rfc3339(item.due_at.as_str());
    let completed = match &item.completed_at {
        Some(c) => crate::clock::parse_rfc3339(c.as_str()),
        None => None,
    };
    let in_created = match created {
        Some(x) => start <= x && x < end,
        None => false,
    };
    let in_due = match due {
        Some(x) => start <= x && x < end,
        None => false,
    };
    let in_completed = match completed {
        Some(x) => start <= x && x < end,
        None => false,
    };
    let still_overdue = str_eq(item.status.as_str(), "OPEN") && match due {
        Some(x) => x < end,
        None => false,
    };
    in_created || in_due || in_completed || still_overdue
}

} // verus!
