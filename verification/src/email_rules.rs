//! E-mail delivery rules: which rules a reminder matches, one delivery per
//! address, the keys that keep a delivery from being sent twice, and the
//! checks on a rule before it is saved.
use sha2::Digest;
use vstd::prelude::*;

use crate::domain::parse_time;
use crate::error::{validation, is_validation, AppResult};
use crate::records::{DueNotification, new_id};
use crate::schedule::opt_view;
use crate::summary::lex_lt;
use crate::text::{chars_of, owned, push_char, str_eq, trim, trim_seq};

verus! {

/// A saved rule: reminders matching it are mailed to its recipient with its
/// strategy.
#[derive(Debug, Clone)]
pub struct EmailDeliveryRule {
    pub id: String,
    pub match_dimension: String,
    pub match_value: String,
    pub strategy: String,
    pub recipient: String,
    pub digest_local_time: String,
    pub enabled: bool,
    pub created_at: String,
    pub updated_at: String,
}

/// A rule as the user entered it.
#[derive(Debug, Clone)]
pub struct EmailDeliveryRuleInput {
    pub id: Option<String>,
    pub match_dimension: String,
    pub match_value: String,
    pub strategy: String,
    pub recipient: String,
    pub digest_local_time: String,
    pub enabled: bool,
}

/// A claimed daily digest and the reminders it lists.
#[derive(Debug, Clone)]
pub struct EmailDigestJob {
    pub delivery_id: String,
    pub recipient: String,
    pub local_date: String,
    pub notifications: Vec<DueNotification>,
}

// ---------------------------------------------------------------------------
// Checking a rule
// ---------------------------------------------------------------------------
/// What a rule can match on.
pub open spec fn is_dimension(d: Seq<char>) -> bool {
    d == "EVENT_KIND"@ || d == "CATEGORY"@ || d == "TAG"@
}

/// When a rule sends.
pub open spec fn is_strategy(s: Seq<char>) -> bool {
    s == "FIRST_DUE"@ || s == "DAILY_FIRST"@ || s == "EACH_PLAN"@ || s == "DAILY_DIGEST"@
}

/// A plausible e-mail address: text before the last `@`, and after it a
/// domain with a dot that neither starts nor ends it.
pub open spec fn valid_email_spec(value: Seq<char>) -> bool {
    exists|at: int|
        0 <= at < value.len() && value[at] == '@' && (forall|k: int| at < k < value.len() ==> value[k] != '@')
            && {
            let local = value.subrange(0, at);
            let domain = value.subrange(at + 1, value.len() as int);
            &&& local.len() > 0
            &&& domain.contains('.')
            &&& domain[0] != '.'
            &&& domain.last() != '.'
        }
}

/// Whether `value` is a plausible e-mail address.
pub fn valid_email(value: &str) -> (r: bool)
    ensures
        r == valid_email_spec(value@),
{
    let chars = chars_of(value);
    let mut i: usize = chars.len();
    while i > 0
        invariant
            i <= chars@.len(),
            chars@ == value@,
            forall|k: int| i <= k < chars@.len() ==> chars@[k] != '@',
        decreases i,
    {
        if chars[i - 1] == '@' {
            let at = i - 1;
            let domain = crate::text::subvec(&chars, at + 1, chars.len());
            let has_dot = crate::text::contains_char(&domain, '.');
            let r = at > 0 && has_dot && domain[0] != '.' && domain[domain.len() - 1] != '.';
            proof {
                assert(domain@ =~= value@.subrange(at + 1, value@.len() as int));
                if r {
                    assert(value@.subrange(0, at as int).len() > 0);
                } else {
                    assert forall|a: int|
                        0 <= a < value@.len() && value@[a] == '@' && (forall|k: int| a < k < value@.len() ==> value@[k] != '@')
                        implies !{
                        let local = value@.subrange(0, a);
                        let d = value@.subrange(a + 1, value@.len() as int);
                        &&& local.len() > 0
                        &&& d.contains('.')
                        &&& d[0] != '.'
                        &&& d.last() != '.'
                    } by {
                        if a < at {
                            assert(value@[at as int] == '@');
                        }
                    }
                }
            }
            return r;
        }
        i = i - 1;
    }
    false
}

/// Why a rule cannot be saved as entered, if it cannot (the store's own
/// checks on what it refers to come after).
pub open spec fn rule_problem(input: EmailDeliveryRuleInput) -> Option<Seq<char>> {
    if !is_dimension(input.match_dimension@) {
        Some("请选择邮件规则的匹配范围"@)
    } else if trim_seq(input.match_value@).len() == 0 {
        Some("请选择邮件规则要匹配的内容"@)
    } else if !is_strategy(input.strategy@) {
        Some("请选择邮件投递时机"@)
    } else if !valid_email_spec(trim_seq(input.recipient@)) {
        Some("请填写有效的邮件收件地址"@)
    } else if crate::clock::chrono_parse_hm(input.digest_local_time@) is None {
        Some(crate::domain::bad_time_message(input.digest_local_time@))
    } else {
        None
    }
}

/// Checks a rule as entered.
pub fn validate_rule(input: &EmailDeliveryRuleInput) -> (r: AppResult<()>)
    ensures
        match rule_problem(*input) {
            None => r is Ok,
            Some(m) => r matches Err(e) && is_validation(e, m),
        },
{
    let d = input.match_dimension.as_str();
    if !(str_eq(d, "EVENT_KIND") || str_eq(d, "CATEGORY") || str_eq(d, "TAG")) {
        return Err(validation("请选择邮件规则的匹配范围"));
    }
    if trim(input.match_value.as_str()).as_str().is_empty() {
        return Err(validation("请选择邮件规则要匹配的内容"));
    }
    let s = input.strategy.as_str();
    if !(str_eq(s, "FIRST_DUE") || str_eq(s, "DAILY_FIRST") || str_eq(s, "EACH_PLAN") || str_eq(s, "DAILY_DIGEST")) {
        return Err(validation("请选择邮件投递时机"));
    }
    if !valid_email(trim(input.recipient.as_str()).as_str()) {
        return Err(validation("请填写有效的邮件收件地址"));
    }
    match parse_time(input.digest_local_time.as_str()) {
        Ok(_) => Ok(()),
        Err(e) => Err(e),
    }
}

/// The message when a rule refers to something that no longer exists.
pub const STALE_RULE_MESSAGE: &'static str = "邮件规则引用的事件类型、类型或标签已经不存在";

/// Whether what a rule matches on still exists: an event kind must be one of
/// the known kinds; for a category or a tag, `stored` is what the store says
/// of a live (not archived) one with that id.
pub open spec fn match_value_known(input: EmailDeliveryRuleInput, stored: bool) -> bool {
    if input.match_dimension@ == "EVENT_KIND"@ {
        crate::domain::is_event_kind_spec(input.match_value@)
    } else if input.match_dimension@ == "CATEGORY"@ || input.match_dimension@ == "TAG"@ {
        stored
    } else {
        false
    }
}

/// Refuses a rule whose event kind, category or tag no longer exists.
pub fn validate_match_value(input: &EmailDeliveryRuleInput, stored: bool) -> (r: AppResult<()>)
    ensures
        match_value_known(*input, stored) ==> r is Ok,
        !match_value_known(*input, stored) ==> (r matches Err(e) && is_validation(e, STALE_RULE_MESSAGE@)),
{
    let d = input.match_dimension.as_str();
    let known = if str_eq(d, "EVENT_KIND") {
        crate::domain::is_event_kind(input.match_value.as_str())
    } else if str_eq(d, "CATEGORY") || str_eq(d, "TAG") {
        stored
    } else {
        false
    };
    proof {
        reveal_strlit("EVENT_KIND");
        reveal_strlit("CATEGORY");
        reveal_strlit("TAG");
        assert("EVENT_KIND"@[0] != "CATEGORY"@[0]);
        assert("EVENT_KIND"@[0] != "TAG"@[0]);
    }
    if known {
        Ok(())
    } else {
        Err(validation(STALE_RULE_MESSAGE))
    }
}

/// The id a saved rule gets: the one entered, unless it is blank, in which
/// case a fresh one.
pub fn chosen_rule_id(input_id: &Option<String>) -> (r: String)
    ensures
        match input_id {
            Some(v) => if trim_seq(v@).len() > 0 {
                r@ == v@
            } else {
                r@.len() == 36
            },
            None => r@.len() == 36,
        },
{
    match input_id {
        Some(v) => {
            if trim(v.as_str()).as_str().is_empty() {
                new_id()
            } else {
                owned(v.as_str())
            }
        },
        None => new_id(),
    }
}

// ---------------------------------------------------------------------------
// Which rules a reminder meets
// ---------------------------------------------------------------------------
/// The reminder carries the tag `id`.
pub open spec fn carries_tag(tag_ids: Seq<String>, id: Seq<char>) -> bool {
    exists|i: int| 0 <= i < tag_ids.len() && (#[trigger] tag_ids[i])@ == id
}

/// A rule matches a reminder by its event kind, its item's category or one
/// of its tags.
pub open spec fn rule_matches(
    rule: EmailDeliveryRule,
    event_kind: Option<Seq<char>>,
    category_id: Option<Seq<char>>,
    tag_ids: Seq<String>,
) -> bool {
    if rule.match_dimension@ == "EVENT_KIND"@ {
        event_kind == Some(rule.match_value@)
    } else if rule.match_dimension@ == "CATEGORY"@ {
        category_id == Some(rule.match_value@)
    } else if rule.match_dimension@ == "TAG"@ {
        carries_tag(tag_ids, rule.match_value@)
    } else {
        false
    }
}

/// What a rule's dimension asks of a reminder, with `m` whether it matches:
/// an event-kind rule matches exactly the reminders of that event kind, a
/// category rule exactly those of that category, a tag rule exactly those
/// carrying that tag, and a rule of any other dimension none.
pub open spec fn rule_match_law(
    rule: EmailDeliveryRule,
    event_kind: Option<Seq<char>>,
    category_id: Option<Seq<char>>,
    tag_ids: Seq<String>,
    m: bool,
) -> bool {
    &&& rule.match_dimension@ == "EVENT_KIND"@ ==> (m <==> (event_kind matches Some(k) && k
        == rule.match_value@))
    &&& rule.match_dimension@ == "CATEGORY"@ ==> (m <==> (category_id matches Some(c) && c
        == rule.match_value@))
    &&& rule.match_dimension@ == "TAG"@ ==> (m <==> exists|i: int|
        0 <= i < tag_ids.len() && (#[trigger] tag_ids[i])@ == rule.match_value@)
    &&& (rule.match_dimension@ != "EVENT_KIND"@ && rule.match_dimension@ != "CATEGORY"@
        && rule.match_dimension@ != "TAG"@) ==> !m
}

/// A rule matches a reminder exactly as its dimension asks.
pub proof fn lemma_rule_matches(
    rule: EmailDeliveryRule,
    event_kind: Option<Seq<char>>,
    category_id: Option<Seq<char>>,
    tag_ids: Seq<String>,
)
    ensures
        rule_match_law(rule, event_kind, category_id, tag_ids, rule_matches(rule, event_kind, category_id, tag_ids)),
{
    reveal_strlit("EVENT_KIND");
    reveal_strlit("CATEGORY");
    reveal_strlit("TAG");
    assert("EVENT_KIND"@[0] != "CATEGORY"@[0]);
    assert("EVENT_KIND"@[0] != "TAG"@[0]);
    assert("CATEGORY"@[0] != "TAG"@[0]);
}

/// The rules a reminder matches are exactly those of the given rules whose
/// dimension it meets: every kept rule is one of them and meets
/// `rule_match_law`, and every given rule that meets it is kept.
pub proof fn lemma_matching_rules(
    rules: Seq<EmailDeliveryRule>,
    event_kind: Option<Seq<char>>,
    category_id: Option<Seq<char>>,
    tag_ids: Seq<String>,
)
    ensures
        forall|j: int|
            0 <= j < matching_rules_spec(rules, event_kind, category_id, tag_ids).len() ==> rules.contains(
                #[trigger] matching_rules_spec(rules, event_kind, category_id, tag_ids)[j],
            ) && rule_match_law(
                matching_rules_spec(rules, event_kind, category_id, tag_ids)[j],
                event_kind,
                category_id,
                tag_ids,
                true,
            ),
        forall|i: int|
            0 <= i < rules.len() && rule_match_law(#[trigger] rules[i], event_kind, category_id, tag_ids, true)
                ==> matching_rules_spec(rules, event_kind, category_id, tag_ids).contains(rules[i]),
    decreases rules.len(),
{
    let r = matching_rules_spec(rules, event_kind, category_id, tag_ids);
    if rules.len() > 0 {
        let p = rules.drop_last();
        let kept = matching_rules_spec(p, event_kind, category_id, tag_ids);
        lemma_matching_rules(p, event_kind, category_id, tag_ids);
        lemma_rule_matches(rules.last(), event_kind, category_id, tag_ids);
        assert forall|j: int| 0 <= j < r.len() implies rules.contains(#[trigger] r[j]) && rule_match_law(
            r[j],
            event_kind,
            category_id,
            tag_ids,
            true,
        ) by {
            if j < kept.len() {
                assert(r[j] == kept[j]);
                let k = choose|k: int| 0 <= k < p.len() && p[k] == kept[j];
                assert(rules[k] == p[k]);
            } else {
                assert(r[j] == rules.last());
                assert(rules[rules.len() - 1] == rules.last());
            }
        }
        assert forall|i: int| 0 <= i < rules.len() && rule_match_law(
            #[trigger] rules[i],
            event_kind,
            category_id,
            tag_ids,
            true,
        ) implies r.contains(rules[i]) by {
            lemma_rule_matches(rules[i], event_kind, category_id, tag_ids);
            if i < rules.len() - 1 {
                assert(p[i] == rules[i]);
                assert(kept.contains(rules[i]));
                let k = choose|k: int| 0 <= k < kept.len() && kept[k] == rules[i];
                assert(r[k] == kept[k]);
            } else {
                assert(r[r.len() - 1] == rules.last());
            }
        }
    }
}

/// The rules a reminder matches, in the order given.
pub open spec fn matching_rules_spec(
    rules: Seq<EmailDeliveryRule>,
    event_kind: Option<Seq<char>>,
    category_id: Option<Seq<char>>,
    tag_ids: Seq<String>,
) -> Seq<EmailDeliveryRule>
    decreases rules.len(),
{
    if rules.len() == 0 {
        Seq::empty()
    } else {
        let kept = matching_rules_spec(rules.drop_last(), event_kind, category_id, tag_ids);
        if rule_matches(rules.last(), event_kind, category_id, tag_ids) {
            kept.push(rules.last())
        } else {
            kept
        }
    }
}

fn equals_option(o: &Option<String>, value: &str) -> (r: bool)
    ensures
        r == (opt_view(*o) == Some(value@)),
{
    match o {
        Some(x) => str_eq(x.as_str(), value),
        None => false,
    }
}

fn has_tag_id(tag_ids: &Vec<String>, id: &str) -> (r: bool)
    ensures
        r == carries_tag(tag_ids@, id@),
{
    let mut i: usize = 0;
    while i < tag_ids.len()
        invariant
            i <= tag_ids@.len(),
            forall|k: int| 0 <= k < i ==> (#[trigger] tag_ids@[k])@ != id@,
        decreases tag_ids@.len() - i,
    {
        if str_eq(tag_ids[i].as_str(), id) {
            return true;
        }
        i = i + 1;
    }
    false
}

/// Whether a rule matches a reminder.
pub fn rule_applies(rule: &EmailDeliveryRule, event_kind: &Option<String>, category_id: &Option<String>, tag_ids: &Vec<String>) -> (r: bool)
    ensures
        r == rule_matches(*rule, opt_view(*event_kind), opt_view(*category_id), tag_ids@),
        rule_match_law(*rule, opt_view(*event_kind), opt_view(*category_id), tag_ids@, r),
{
    proof {
        lemma_rule_matches(*rule, opt_view(*event_kind), opt_view(*category_id), tag_ids@);
    }
    let d = rule.match_dimension.as_str();
    proof {
        reveal_strlit("EVENT_KIND");
        reveal_strlit("CATEGORY");
        reveal_strlit("TAG");
        assert("EVENT_KIND"@[0] != "CATEGORY"@[0]);
        assert("EVENT_KIND"@[0] != "TAG"@[0]);
        assert("CATEGORY"@[0] != "TAG"@[0]);
    }
    if str_eq(d, "EVENT_KIND") {
        equals_option(event_kind, rule.match_value.as_str())
    } else if str_eq(d, "CATEGORY") {
        equals_option(category_id, rule.match_value.as_str())
    } else if str_eq(d, "TAG") {
        has_tag_id(tag_ids, rule.match_value.as_str())
    } else {
        false
    }
}

/// The enabled rules (given in the store's order) that a reminder matches.
pub fn matching_rules(
    rules: Vec<EmailDeliveryRule>,
    event_kind: &Option<String>,
    category_id: &Option<String>,
    tag_ids: &Vec<String>,
) -> (r: Vec<EmailDeliveryRule>)
    ensures
        r@ == matching_rules_spec(rules@, opt_view(*event_kind), opt_view(*category_id), tag_ids@),
        forall|j: int|
            0 <= j < r@.len() ==> rules@.contains(#[trigger] r@[j]) && rule_match_law(
                r@[j],
                opt_view(*event_kind),
                opt_view(*category_id),
                tag_ids@,
                true,
            ),
        forall|i: int|
            0 <= i < rules@.len() && rule_match_law(
                #[trigger] rules@[i],
                opt_view(*event_kind),
                opt_view(*category_id),
                tag_ids@,
                true,
            ) ==> r@.contains(rules@[i]),
{
    proof {
        lemma_matching_rules(rules@, opt_view(*event_kind), opt_view(*category_id), tag_ids@);
    }
    let ghost all = rules@;
    let ghost ek = opt_view(*event_kind);
    let ghost ci = opt_view(*category_id);
    let mut rest = rules;
    let mut tail: Vec<EmailDeliveryRule> = Vec::new();
    while rest.len() > 0
        invariant
            matching_rules_spec(all, ek, ci, tag_ids@) == matching_rules_spec(rest@, ek, ci, tag_ids@) + tail@.reverse(),
            ek == opt_view(*event_kind),
            ci == opt_view(*category_id),
        decreases rest@.len(),
    {
        let ghost before = rest@;
        let rule = rest.pop().unwrap();
        assert(before.drop_last() =~= rest@);
        if rule_applies(&rule, event_kind, category_id, tag_ids) {
            let ghost old_tail = tail@;
            tail.push(rule);
            assert(tail@.reverse() =~= seq![before.last()] + old_tail.reverse());
            assert(matching_rules_spec(rest@, ek, ci, tag_ids@).push(before.last()) + old_tail.reverse()
                =~= matching_rules_spec(rest@, ek, ci, tag_ids@) + tail@.reverse());
        }
    }
    assert(matching_rules_spec(rest@, ek, ci, tag_ids@) =~= Seq::<EmailDeliveryRule>::empty());
    let mut out: Vec<EmailDeliveryRule> = Vec::new();
    let ghost want = tail@.reverse();
    while tail.len() > 0
        invariant
            want == out@ + tail@.reverse(),
        decreases tail@.len(),
    {
        let ghost before = tail@;
        let rule = tail.pop().unwrap();
        assert(before.drop_last() =~= tail@);
        assert(before.reverse() =~= seq![rule] + tail@.reverse());
        out.push(rule);
        assert(out@ + tail@.reverse() =~= want);
    }
    assert(out@ =~= want);
    out
}

// ---------------------------------------------------------------------------
// One delivery per address
// ---------------------------------------------------------------------------
/// Adds a rule to a list kept in recipient order, unless its recipient is
/// already there (the first rule for an address wins).
pub open spec fn keep_first(s: Seq<EmailDeliveryRule>, rule: EmailDeliveryRule) -> Seq<EmailDeliveryRule>
    decreases s.len(),
{
    if s.len() == 0 {
        seq![rule]
    } else if s[0].recipient@ == rule.recipient@ {
        s
    } else if lex_lt(rule.recipient@, s[0].recipient@) {
        seq![rule] + s
    } else {
        seq![s[0]] + keep_first(s.drop_first(), rule)
    }
}

/// For each recipient, the first of the rules for it, in recipient order.
pub open spec fn first_per_recipient_spec(rules: Seq<EmailDeliveryRule>) -> Seq<EmailDeliveryRule>
    decreases rules.len(),
{
    if rules.len() == 0 {
        Seq::empty()
    } else {
        keep_first(first_per_recipient_spec(rules.drop_last()), rules.last())
    }
}

/// The recipients run in strictly increasing order.
pub open spec fn recipients_sorted(s: Seq<EmailDeliveryRule>) -> bool {
    forall|i: int, j: int| 0 <= i < j < s.len() ==> lex_lt(#[trigger] s[i].recipient@, #[trigger] s[j].recipient@)
}

proof fn lemma_keep_first_at(s: Seq<EmailDeliveryRule>, rule: EmailDeliveryRule, i: int)
    requires
        recipients_sorted(s),
        0 <= i <= s.len(),
        forall|j: int| 0 <= j < i ==> lex_lt(#[trigger] s[j].recipient@, rule.recipient@),
        i < s.len() ==> crate::domain::lex_le(rule.recipient@, s[i].recipient@),
    ensures
        i < s.len() && s[i].recipient@ == rule.recipient@ ==> keep_first(s, rule) == s,
        !(i < s.len() && s[i].recipient@ == rule.recipient@) ==> keep_first(s, rule) == s.subrange(0, i).push(rule)
            + s.subrange(i, s.len() as int),
    decreases s.len(),
{
    if s.len() == 0 {
        assert(s.subrange(0, 0).push(rule) + s.subrange(0, 0) =~= seq![rule]);
    } else if i == 0 {
        if s[0].recipient@ != rule.recipient@ {
            assert(s.subrange(0, 0).push(rule) + s.subrange(0, s.len() as int) =~= seq![rule] + s);
        }
    } else {
        let t = s.drop_first();
        assert(lex_lt(s[0].recipient@, rule.recipient@));
        if lex_lt(rule.recipient@, s[0].recipient@) {
            crate::domain::lemma_lex_antisym(rule.recipient@, s[0].recipient@);
        }
        assert forall|a: int, b: int| 0 <= a < b < t.len() implies lex_lt(#[trigger] t[a].recipient@, #[trigger] t[b].recipient@) by {
            assert(t[a] == s[a + 1] && t[b] == s[b + 1]);
        }
        assert forall|j: int| 0 <= j < i - 1 implies lex_lt(#[trigger] t[j].recipient@, rule.recipient@) by {
            assert(t[j] == s[j + 1]);
        }
        if i < s.len() {
            assert(t[i - 1] == s[i]);
        }
        lemma_keep_first_at(t, rule, i - 1);
        if i < s.len() && s[i].recipient@ == rule.recipient@ {
            assert(seq![s[0]] + t =~= s);
        } else {
            assert(seq![s[0]] + (t.subrange(0, i - 1).push(rule) + t.subrange(i - 1, t.len() as int))
                =~= s.subrange(0, i).push(rule) + s.subrange(i, s.len() as int));
        }
    }
}

proof fn lemma_keep_first_sorted(s: Seq<EmailDeliveryRule>, rule: EmailDeliveryRule)
    requires
        recipients_sorted(s),
    ensures
        recipients_sorted(keep_first(s, rule)),
        forall|j: int|
            0 <= j < keep_first(s, rule).len() ==> ((#[trigger] keep_first(s, rule)[j]).recipient@ == rule.recipient@
                || exists|m: int| 0 <= m < s.len() && s[m].recipient@ == keep_first(s, rule)[j].recipient@),
    decreases s.len(),
{
    let r = keep_first(s, rule);
    if s.len() == 0 {
    } else if s[0].recipient@ == rule.recipient@ {
        assert forall|j: int| 0 <= j < r.len() implies ((#[trigger] r[j]).recipient@ == rule.recipient@ || exists|m: int|
            0 <= m < s.len() && s[m].recipient@ == r[j].recipient@) by {
            assert(r[j] == s[j]);
        }
    } else if lex_lt(rule.recipient@, s[0].recipient@) {
        assert forall|a: int, b: int| 0 <= a < b < r.len() implies lex_lt(#[trigger] r[a].recipient@, #[trigger] r[b].recipient@) by {
            assert(r[b] == s[b - 1]);
            if a > 0 {
                assert(r[a] == s[a - 1]);
            } else if b - 1 > 0 {
                crate::domain::lemma_lex_trans(rule.recipient@, s[0].recipient@, s[b - 1].recipient@);
                if rule.recipient@ == s[b - 1].recipient@ {
                    crate::domain::lemma_lex_antisym(rule.recipient@, s[0].recipient@);
                }
            }
        }
        assert forall|j: int| 0 <= j < r.len() implies ((#[trigger] r[j]).recipient@ == rule.recipient@ || exists|m: int|
            0 <= m < s.len() && s[m].recipient@ == r[j].recipient@) by {
            if j > 0 {
                assert(r[j] == s[j - 1]);
            }
        }
    } else {
        let t = s.drop_first();
        assert forall|a: int, b: int| 0 <= a < b < t.len() implies lex_lt(#[trigger] t[a].recipient@, #[trigger] t[b].recipient@) by {
            assert(t[a] == s[a + 1] && t[b] == s[b + 1]);
        }
        lemma_keep_first_sorted(t, rule);
        let rt = keep_first(t, rule);
        crate::domain::lemma_lex_total(rule.recipient@, s[0].recipient@);
        assert(lex_lt(s[0].recipient@, rule.recipient@));
        assert forall|a: int, b: int| 0 <= a < b < r.len() implies lex_lt(#[trigger] r[a].recipient@, #[trigger] r[b].recipient@) by {
            assert(r[b] == rt[b - 1]);
            if a > 0 {
                assert(r[a] == rt[a - 1]);
            } else if rt[b - 1].recipient@ != rule.recipient@ {
                let m = choose|m: int| 0 <= m < t.len() && t[m].recipient@ == rt[b - 1].recipient@;
                assert(t[m] == s[m + 1]);
            }
        }
        assert forall|j: int| 0 <= j < r.len() implies ((#[trigger] r[j]).recipient@ == rule.recipient@ || exists|m: int|
            0 <= m < s.len() && s[m].recipient@ == r[j].recipient@) by {
            if j > 0 {
                assert(r[j] == rt[j - 1]);
                if rt[j - 1].recipient@ != rule.recipient@ {
                    let m = choose|m: int| 0 <= m < t.len() && t[m].recipient@ == rt[j - 1].recipient@;
                    assert(t[m] == s[m + 1]);
                }
            }
        }
    }
}

/// The recipient occurs among the rules.
pub open spec fn has_recipient(s: Seq<EmailDeliveryRule>, recipient: Seq<char>) -> bool {
    exists|j: int| 0 <= j < s.len() && (#[trigger] s[j]).recipient@ == recipient
}

proof fn lemma_keep_first_covers(s: Seq<EmailDeliveryRule>, rule: EmailDeliveryRule)
    ensures
        has_recipient(keep_first(s, rule), rule.recipient@),
        forall|m: int| 0 <= m < s.len() ==> has_recipient(keep_first(s, rule), (#[trigger] s[m]).recipient@),
    decreases s.len(),
{
    let k = keep_first(s, rule);
    if s.len() == 0 {
        assert(k[0] == rule);
    } else if s[0].recipient@ == rule.recipient@ {
        assert(k[0] == s[0]);
        assert forall|m: int| 0 <= m < s.len() implies has_recipient(k, (#[trigger] s[m]).recipient@) by {
            assert(k[m] == s[m]);
        }
    } else if lex_lt(rule.recipient@, s[0].recipient@) {
        assert(k[0] == rule);
        assert forall|m: int| 0 <= m < s.len() implies has_recipient(k, (#[trigger] s[m]).recipient@) by {
            assert(k[m + 1] == s[m]);
        }
    } else {
        let t = s.drop_first();
        let kt = keep_first(t, rule);
        lemma_keep_first_covers(t, rule);
        assert(k =~= seq![s[0]] + kt);
        let j0 = choose|j: int| 0 <= j < kt.len() && (#[trigger] kt[j]).recipient@ == rule.recipient@;
        assert(k[j0 + 1] == kt[j0]);
        assert forall|m: int| 0 <= m < s.len() implies has_recipient(k, (#[trigger] s[m]).recipient@) by {
            if m == 0 {
                assert(k[0] == s[0]);
            } else {
                assert(t[m - 1] == s[m]);
                assert(has_recipient(kt, t[m - 1].recipient@));
                let j = choose|j: int| 0 <= j < kt.len() && (#[trigger] kt[j]).recipient@ == t[m - 1].recipient@;
                assert(k[j + 1] == kt[j]);
            }
        }
    }
}

/// `x` is a rule of the list, and no rule before it has its recipient.
pub open spec fn first_for_recipient(rules: Seq<EmailDeliveryRule>, x: EmailDeliveryRule) -> bool {
    exists|i: int|
        0 <= i < rules.len() && rules[i] == x && forall|k: int|
            0 <= k < i ==> (#[trigger] rules[k]).recipient@ != x.recipient@
}

proof fn lemma_lex_lt_chain(a: Seq<char>, b: Seq<char>, c: Seq<char>)
    requires
        lex_lt(a, b),
        lex_lt(b, c),
    ensures
        lex_lt(a, c),
{
    crate::domain::lemma_lex_trans(a, b, c);
    if a == c {
        crate::domain::lemma_lex_antisym(a, b);
    }
}

proof fn lemma_keep_first_from(s: Seq<EmailDeliveryRule>, rule: EmailDeliveryRule)
    requires
        recipients_sorted(s),
    ensures
        forall|j: int|
            0 <= j < keep_first(s, rule).len() ==> s.contains(#[trigger] keep_first(s, rule)[j]) || (
            keep_first(s, rule)[j] == rule && !has_recipient(s, rule.recipient@)),
    decreases s.len(),
{
    let k = keep_first(s, rule);
    if s.len() == 0 {
    } else if s[0].recipient@ == rule.recipient@ {
        assert forall|j: int| 0 <= j < k.len() implies s.contains(#[trigger] k[j]) by {
            assert(k[j] == s[j]);
        }
    } else if lex_lt(rule.recipient@, s[0].recipient@) {
        assert(!has_recipient(s, rule.recipient@)) by {
            if has_recipient(s, rule.recipient@) {
                let m = choose|m: int| 0 <= m < s.len() && (#[trigger] s[m]).recipient@ == rule.recipient@;
                if m > 0 {
                    lemma_lex_lt_chain(rule.recipient@, s[0].recipient@, s[m].recipient@);
                }
            }
        }
        assert forall|j: int| 0 < j < k.len() implies s.contains(#[trigger] k[j]) by {
            assert(k[j] == s[j - 1]);
        }
    } else {
        let t = s.drop_first();
        assert forall|i: int, j: int| 0 <= i < j < t.len() implies lex_lt(
            (#[trigger] t[i]).recipient@,
            (#[trigger] t[j]).recipient@,
        ) by {
            assert(t[i] == s[i + 1] && t[j] == s[j + 1]);
        }
        lemma_keep_first_from(t, rule);
        let kt = keep_first(t, rule);
        assert(k =~= seq![s[0]] + kt);
        assert forall|j: int| 0 <= j < k.len() implies s.contains(#[trigger] k[j]) || (k[j] == rule
            && !has_recipient(s, rule.recipient@)) by {
            if j == 0 {
                assert(s[0] == k[0]);
            } else {
                assert(k[j] == kt[j - 1]);
                if t.contains(kt[j - 1]) {
                    let m = choose|m: int| 0 <= m < t.len() && t[m] == kt[j - 1];
                    assert(s[m + 1] == t[m]);
                } else {
                    assert(!has_recipient(t, rule.recipient@));
                    if has_recipient(s, rule.recipient@) {
                        let m = choose|m: int| 0 <= m < s.len() && (#[trigger] s[m]).recipient@ == rule.recipient@;
                        assert(m > 0);
                        assert(t[m - 1] == s[m]);
                    }
                }
            }
        }
    }
}

/// The first rule for an address wins: each rule kept is the first of the
/// given rules with its recipient.
pub proof fn lemma_first_rule_wins(rules: Seq<EmailDeliveryRule>)
    ensures
        forall|j: int|
            0 <= j < first_per_recipient_spec(rules).len() ==> first_for_recipient(
                rules,
                #[trigger] first_per_recipient_spec(rules)[j],
            ),
    decreases rules.len(),
{
    if rules.len() > 0 {
        let p = rules.drop_last();
        let prev = first_per_recipient_spec(p);
        let last = rules.last();
        let k = first_per_recipient_spec(rules);
        lemma_first_rule_wins(p);
        lemma_one_delivery_per_address(p);
        lemma_keep_first_from(prev, last);
        assert(k == keep_first(prev, last));
        assert forall|j: int| 0 <= j < k.len() implies first_for_recipient(rules, #[trigger] k[j]) by {
            if prev.contains(k[j]) {
                let m = choose|m: int| 0 <= m < prev.len() && prev[m] == k[j];
                assert(first_for_recipient(p, prev[m]));
                let i = choose|i: int|
                    0 <= i < p.len() && p[i] == prev[m] && forall|q: int|
                        0 <= q < i ==> (#[trigger] p[q]).recipient@ != prev[m].recipient@;
                assert(rules[i] == p[i]);
                assert forall|q: int| 0 <= q < i implies (#[trigger] rules[q]).recipient@ != k[j].recipient@ by {
                    assert(rules[q] == p[q]);
                }
            } else {
                let i = rules.len() - 1;
                assert(rules[i] == last);
                assert forall|q: int| 0 <= q < i implies (#[trigger] rules[q]).recipient@ != k[j].recipient@ by {
                    assert(rules[q] == p[q]);
                    if p[q].recipient@ == last.recipient@ {
                        assert(has_recipient(prev, p[q].recipient@));
                    }
                }
            }
        }
    }
}

/// One delivery per address: among the rules kept no recipient appears
/// twice (they run in strictly increasing recipient order), and every
/// recipient of the given rules keeps one.
pub proof fn lemma_one_delivery_per_address(rules: Seq<EmailDeliveryRule>)
    ensures
        recipients_sorted(first_per_recipient_spec(rules)),
        forall|i: int, j: int|
            0 <= i < j < first_per_recipient_spec(rules).len() ==> (#[trigger] first_per_recipient_spec(
                rules,
            )[i]).recipient@ != (#[trigger] first_per_recipient_spec(rules)[j]).recipient@,
        forall|i: int|
            0 <= i < rules.len() ==> has_recipient(first_per_recipient_spec(rules), (#[trigger] rules[i]).recipient@),
    decreases rules.len(),
{
    if rules.len() > 0 {
        let prev = first_per_recipient_spec(rules.drop_last());
        lemma_one_delivery_per_address(rules.drop_last());
        lemma_keep_first_sorted(prev, rules.last());
        lemma_keep_first_covers(prev, rules.last());
        let k = first_per_recipient_spec(rules);
        assert(k == keep_first(prev, rules.last()));
        assert forall|i: int| 0 <= i < rules.len() implies has_recipient(k, (#[trigger] rules[i]).recipient@) by {
            if i < rules.len() - 1 {
                assert(rules.drop_last()[i] == rules[i]);
                assert(has_recipient(prev, rules[i].recipient@));
                let m = choose|m: int| 0 <= m < prev.len() && (#[trigger] prev[m]).recipient@ == rules[i].recipient@;
                assert(has_recipient(k, prev[m].recipient@));
            }
        }
    }
    let k = first_per_recipient_spec(rules);
    assert forall|i: int, j: int| 0 <= i < j < k.len() implies (#[trigger] k[i]).recipient@ != (
    #[trigger] k[j]).recipient@ by {
        assert(lex_lt(k[i].recipient@, k[j].recipient@));
    }
}

/// The first matching rule for each recipient, in recipient order.
pub fn first_rule_per_recipient(rules: Vec<EmailDeliveryRule>) -> (r: Vec<EmailDeliveryRule>)
    ensures
        r@ == first_per_recipient_spec(rules@),
        forall|i: int, j: int| 0 <= i < j < r@.len() ==> (#[trigger] r@[i]).recipient@ != (#[trigger] r@[j]).recipient@,
        forall|i: int| 0 <= i < rules@.len() ==> has_recipient(r@, (#[trigger] rules@[i]).recipient@),
        forall|j: int| 0 <= j < r@.len() ==> first_for_recipient(rules@, #[trigger] r@[j]),
{
    proof {
        lemma_one_delivery_per_address(rules@);
        lemma_first_rule_wins(rules@);
    }
    let ghost all = rules@;
    let mut table: Vec<EmailDeliveryRule> = Vec::new();
    let mut rest = rules;
    let mut pending: Vec<EmailDeliveryRule> = Vec::new();
    // Reverse the rules so they can be taken from the front in order.
    let total = rest.len();
    while rest.len() > 0
        invariant
            all == rest@ + pending@.reverse(),
            all.len() == total,
        decreases rest@.len(),
    {
        let ghost before = rest@;
        let ghost old_pending = pending@;
        let rule = rest.pop().unwrap();
        pending.push(rule);
        proof {
            assert(before.drop_last() =~= rest@);
            assert(pending@.reverse() =~= seq![before.last()] + old_pending.reverse());
            assert(all =~= rest@ + pending@.reverse());
        }
    }
    assert(all =~= pending@.reverse());
    let mut i: usize = 0;
    while pending.len() > 0
        invariant
            all == all.subrange(0, i as int) + pending@.reverse(),
            i <= all.len(),
            all.len() == total,
            table@ == first_per_recipient_spec(all.subrange(0, i as int)),
            recipients_sorted(table@),
        decreases pending@.len(),
    {
        let ghost before = pending@;
        let rule = pending.pop().unwrap();
        proof {
            assert(before.drop_last() =~= pending@);
            assert(before.reverse() =~= seq![rule] + pending@.reverse());
            assert(all[i as int] == rule);
            let next = all.subrange(0, i as int + 1);
            assert(next.drop_last() =~= all.subrange(0, i as int));
            assert(next.last() == rule);
            lemma_keep_first_sorted(table@, rule);
        }
        let key = chars_of(rule.recipient.as_str());
        let mut k: usize = 0;
        while k < table.len()
            invariant
                k <= table@.len(),
                recipients_sorted(table@),
                key@ == rule.recipient@,
                forall|j: int| 0 <= j < k ==> lex_lt(#[trigger] table@[j].recipient@, rule.recipient@),
            ensures
                k <= table@.len(),
                forall|j: int| 0 <= j < k ==> lex_lt(#[trigger] table@[j].recipient@, rule.recipient@),
                k < table@.len() ==> crate::domain::lex_le(rule.recipient@, table@[k as int].recipient@),
            decreases table@.len() - k,
        {
            let here = chars_of(table[k].recipient.as_str());
            if crate::domain::lex_le_exec(&key, &here) {
                break;
            }
            proof {
                crate::domain::lemma_lex_total(rule.recipient@, table@[k as int].recipient@);
                crate::domain::lemma_lex_total(rule.recipient@, rule.recipient@);
            }
            k = k + 1;
        }
        proof {
            lemma_keep_first_at(table@, rule, k as int);
        }
        if !(k < table.len() && str_eq(table[k].recipient.as_str(), rule.recipient.as_str())) {
            table.insert(k, rule);
        }
        i = i + 1;
        proof {
            assert(all =~= all.subrange(0, i as int) + pending@.reverse());
        }
    }
    assert(all.subrange(0, i as int) =~= all);
    table
}

// ---------------------------------------------------------------------------
// Keys that keep a delivery from being sent twice
// ---------------------------------------------------------------------------
/// What SHA-256 gives for a byte string (`sha2::Sha256::digest`).
pub uninterp spec fn sha256_of(data: Seq<u8>) -> Seq<u8>;

/// The SHA-256 digest of `data` (`sha2::Sha256::digest`): 32 bytes.
#[verifier::external_body]
pub(crate) fn sha256(data: &[u8]) -> (r: Vec<u8>)
    ensures
        r@ == sha256_of(data@),
        r@.len() == 32,
{
    sha2::Sha256::digest(data).to_vec()
}

/// The lower-case hexadecimal digit for `d < 16`.
pub open spec fn hex_digit(d: int) -> char {
    if d < 10 {
        (('0' as int) + d) as char
    } else {
        (('a' as int) + d - 10) as char
    }
}

/// Bytes written as lower-case hexadecimal, two digits per byte.
pub open spec fn hex_spec(data: Seq<u8>) -> Seq<char>
    decreases data.len(),
{
    if data.len() == 0 {
        Seq::empty()
    } else {
        hex_spec(data.drop_last()) + seq![hex_digit(data.last() as int / 16), hex_digit(data.last() as int % 16)]
    }
}

proof fn lemma_hex_len(data: Seq<u8>)
    ensures
        hex_spec(data).len() == 2 * data.len(),
    decreases data.len(),
{
    if data.len() > 0 {
        lemma_hex_len(data.drop_last());
    }
}

/// The lower-case hexadecimal digit of a value below sixteen.
fn hex_digit_char(d: u8) -> (c: char)
    requires
        d < 16,
    ensures
        c == hex_digit(d as int),
{
    if d < 10 {
        (48u8 + d) as char
    } else {
        (87u8 + d) as char
    }
}

/// Writes bytes as lower-case hexadecimal: two digits per byte, high half
/// first.
pub(crate) fn hex_encode(data: &[u8]) -> (r: String)
    ensures
        r@ == hex_spec(data@),
{
    let mut out = String::new();
    let mut i: usize = 0;
    while i < data.len()
        invariant
            i <= data@.len(),
            out@ == hex_spec(data@.subrange(0, i as int)),
        decreases data@.len() - i,
    {
        let b = data[i];
        proof {
            let next = data@.subrange(0, i as int + 1);
            assert(next.drop_last() =~= data@.subrange(0, i as int));
            assert(next.last() == b);
        }
        push_char(&mut out, hex_digit_char(b / 16));
        push_char(&mut out, hex_digit_char(b % 16));
        proof {
            let next = data@.subrange(0, i as int + 1);
            assert(out@ =~= hex_spec(next.drop_last()) + seq![hex_digit(b as int / 16), hex_digit(b as int % 16)]);
        }
        i = i + 1;
    }
    assert(data@.subrange(0, data@.len() as int) =~= data@);
    out
}

/// The short key an address is known by in delivery keys: the first sixteen
/// hexadecimal digits of the SHA-256 digest of its UTF-8 bytes.
pub open spec fn recipient_key_spec(recipient: Seq<char>) -> Seq<char> {
    hex_spec(sha256_of(vstd::utf8::encode_utf8(recipient))).subrange(0, 16)
}

/// The short key of an address.
pub fn recipient_key(recipient: &str) -> (r: String)
    ensures
        r@ == recipient_key_spec(recipient@),
        r@.len() == 16,
{
    let bytes = recipient.as_bytes();
    let digest = sha256(bytes);
    let text = hex_encode(digest.as_slice());
    proof {
        lemma_hex_len(digest@);
    }
    let chars = chars_of(text.as_str());
    let head = crate::text::subvec(&chars, 0, 16);
    crate::text::string_from_chars(&head)
}

/// The key of an immediate delivery under a rule's strategy, keyed by the
/// address's short key: the first due reminder of an item, the first of each
/// local day, or each reminder event. Other strategies have none.
pub open spec fn idempotency_key_spec(
    strategy: Seq<char>,
    item_id: Seq<char>,
    event_id: Seq<char>,
    key: Seq<char>,
    local_date: Seq<char>,
) -> Option<Seq<char>> {
    if strategy == "FIRST_DUE"@ {
        Some(item_id + ":email:"@ + key + ":first"@)
    } else if strategy == "DAILY_FIRST"@ {
        Some(item_id + ":email:"@ + key + ":day:"@ + local_date)
    } else if strategy == "EACH_PLAN"@ {
        Some(event_id + ":email:"@ + key)
    } else {
        None
    }
}

/// The key of an immediate delivery, if the strategy sends immediately.
pub fn idempotency_key(strategy: &str, notification: &DueNotification, key: &str, local_date: &str) -> (r: Option<String>)
    ensures
        opt_view(r) == idempotency_key_spec(
            strategy@,
            notification.item_id@,
            notification.event_id@,
            key@,
            local_date@,
        ),
{
    if str_eq(strategy, "FIRST_DUE") {
        let mut out = owned(notification.item_id.as_str());
        out.append(":email:");
        out.append(key);
        out.append(":first");
        Some(out)
    } else if str_eq(strategy, "DAILY_FIRST") {
        let mut out = owned(notification.item_id.as_str());
        out.append(":email:");
        out.append(key);
        out.append(":day:");
        out.append(local_date);
        Some(out)
    } else if str_eq(strategy, "EACH_PLAN") {
        let mut out = owned(notification.event_id.as_str());
        out.append(":email:");
        out.append(key);
        Some(out)
    } else {
        None
    }
}

/// The key of a daily digest for an address and a local date.
pub fn digest_key(recipient: &str, local_date: &str) -> (r: String)
    ensures
        r@ == "digest:"@ + recipient_key_spec(recipient@) + ":"@ + local_date@,
{
    let mut out = owned("digest:");
    out.append(recipient_key(recipient).as_str());
    out.append(":");
    out.append(local_date);
    out
}

/// The due time a queued digest entry records: `date` `T` `time`.
pub fn digest_due_at(notification: &DueNotification) -> (r: String)
    ensures
        r@ == notification.due_local_date@ + seq!['T'] + notification.due_local_time@,
{
    let mut out = owned(notification.due_local_date.as_str());
    crate::text::push_char(&mut out, 'T');
    out.append(notification.due_local_time.as_str());
    out
}

/// The local date a reminder joins a digest for: today, or tomorrow when
/// today's digest for the address has already gone out.
pub fn digest_date(today: crate::clock::LocalDate, already_sent: bool) -> (r: Option<crate::clock::LocalDate>)
    requires
        crate::clock::supported_date(today),
    ensures
        !already_sent ==> r == Some(today),
        already_sent ==> match r {
            Some(d) => crate::clock::chrono_add_days(today.year, today.month, today.day, 1) == Some(
                crate::clock::date_tuple(d),
            ),
            None => crate::clock::chrono_add_days(today.year, today.month, today.day, 1) is None,
        },
{
    if already_sent {
        crate::clock::date_add_days(today, 1)
    } else {
        Some(today)
    }
}

/// What to do with one matched rule for a due reminder.
#[derive(Debug)]
pub enum ClaimStep {
    /// Queue the reminder for the address's daily digest.
    Digest { rule_id: String, recipient: String },
    /// Claim an immediate delivery under this key.
    Immediate { rule_id: String, recipient: String, strategy: String, key: String },
}

/// The step for one matched rule: a digest entry, an immediate delivery
/// with its key, or nothing for an unknown strategy.
pub open spec fn claim_step_spec(r: Option<ClaimStep>, rule: EmailDeliveryRule, n: DueNotification, local_date: Seq<char>) -> bool {
    if rule.strategy@ == "DAILY_DIGEST"@ {
        r matches Some(ClaimStep::Digest { rule_id, recipient }) && rule_id@ == rule.id@ && recipient@
            == rule.recipient@
    } else {
        match idempotency_key_spec(
            rule.strategy@,
            n.item_id@,
            n.event_id@,
            recipient_key_spec(rule.recipient@),
            local_date,
        ) {
            None => r is None,
            Some(k) => r matches Some(ClaimStep::Immediate { rule_id, recipient, strategy, key }) && rule_id@
                == rule.id@ && recipient@ == rule.recipient@ && strategy@ == rule.strategy@ && key@ == k,
        }
    }
}

/// Decides what one matched rule asks for.
pub fn claim_step(rule: &EmailDeliveryRule, notification: &DueNotification, local_date: &str) -> (r: Option<ClaimStep>)
    ensures
        claim_step_spec(r, *rule, *notification, local_date@),
{
    if str_eq(rule.strategy.as_str(), "DAILY_DIGEST") {
        return Some(ClaimStep::Digest { rule_id: owned(rule.id.as_str()), recipient: owned(rule.recipient.as_str()) });
    }
    let key = recipient_key(rule.recipient.as_str());
    match idempotency_key(rule.strategy.as_str(), notification, key.as_str(), local_date) {
        None => None,
        Some(k) => Some(
            ClaimStep::Immediate {
                rule_id: owned(rule.id.as_str()),
                recipient: owned(rule.recipient.as_str()),
                strategy: owned(rule.strategy.as_str()),
                key: k,
            },
        ),
    }
}

/// `steps` are the steps for a due reminder: one for each rule that
/// `first_per_recipient_spec` keeps of the rules the reminder matches, in
/// that order, each the step `claim_step_spec` gives for its rule.
pub open spec fn claims_for(
    rules: Seq<EmailDeliveryRule>,
    notification: DueNotification,
    category_id: Option<Seq<char>>,
    local_date: Seq<char>,
    steps: Seq<Option<ClaimStep>>,
) -> bool {
    let chosen = first_per_recipient_spec(
        matching_rules_spec(rules, opt_view(notification.event_kind), category_id, notification.tag_ids@),
    );
    &&& steps.len() == chosen.len()
    &&& forall|i: int| 0 <= i < steps.len() ==> claim_step_spec(#[trigger] steps[i], chosen[i], notification, local_date)
}

/// The steps for a due reminder: of the enabled rules it matches (given in
/// the store's order), the first for each address, in address order, each
/// turned into its step.
pub fn plan_claims(
    rules: Vec<EmailDeliveryRule>,
    notification: &DueNotification,
    category_id: &Option<String>,
    local_date: &str,
) -> (r: Vec<Option<ClaimStep>>)
    ensures
        r@.len() == first_per_recipient_spec(
            matching_rules_spec(rules@, opt_view(notification.event_kind), opt_view(*category_id), notification.tag_ids@),
        ).len(),
        forall|i: int|
            0 <= i < r@.len() ==> claim_step_spec(
                #[trigger] r@[i],
                first_per_recipient_spec(
                    matching_rules_spec(rules@, opt_view(notification.event_kind), opt_view(*category_id), notification.tag_ids@),
                )[i],
                *notification,
                local_date@,
            ),
        claims_for(rules@, *notification, opt_view(*category_id), local_date@, r@),
{
    let matched = matching_rules(rules, &notification.event_kind, category_id, &notification.tag_ids);
    let chosen = first_rule_per_recipient(matched);
    let mut steps: Vec<Option<ClaimStep>> = Vec::new();
    let mut i: usize = 0;
    while i < chosen.len()
        invariant
            i <= chosen@.len(),
            steps@.len() == i,
            forall|k: int| 0 <= k < i ==> claim_step_spec(#[trigger] steps@[k], chosen@[k], *notification, local_date@),
        decreases chosen@.len() - i,
    {
        steps.push(claim_step(&chosen[i], notification, local_date));
        i = i + 1;
    }
    steps
}

/// How many times a daily digest is tried before it is given up.
pub const DIGEST_ATTEMPT_LIMIT: u32 = 3;

/// A queued digest for the local day `group_date` is due at the local day
/// `today` and time of day `now_time`: its day has passed, or it is today
/// and `latest_digest_time`, the latest digest time among its enabled rules,
/// has come.  Days (`YYYY-MM-DD`) and times (`HH:MM`) compare as text.
pub fn digest_group_due(group_date: &str, latest_digest_time: &str, today: &str, now_time: &str) -> (r: bool)
    ensures
        r == (crate::domain::lex_le(group_date@, today@) && (group_date@ != today@
            || crate::domain::lex_le(latest_digest_time@, now_time@))),
{
    if !crate::item_rules::text_le(group_date, today) {
        return false;
    }
    if !str_eq(group_date, today) {
        return true;
    }
    crate::item_rules::text_le(latest_digest_time, now_time)
}

/// A digest claim whose sending was interrupted: it was claimed at least
/// two minutes before `now` (in seconds) and has attempts left.  Such a
/// claim counts one failed attempt and may be retried at once.
pub fn digest_claim_interrupted(attempted_at: i64, now: i64, attempt_count: u32) -> (r: bool)
    ensures
        r == (attempted_at <= now - crate::due::STALE_CLAIM_SECONDS && attempt_count
            < DIGEST_ATTEMPT_LIMIT),
{
    let stale = attempted_at <= i64::MAX - crate::due::STALE_CLAIM_SECONDS && attempted_at
        + crate::due::STALE_CLAIM_SECONDS <= now;
    stale && attempt_count < DIGEST_ATTEMPT_LIMIT
}

/// A failed digest is claimed again once its retry time has come, while it
/// has attempts left; one with no retry time is not retried.
pub fn digest_retry_ready(attempt_count: u32, next_attempt_at: Option<i64>, now: i64) -> (r: bool)
    ensures
        r == (attempt_count < DIGEST_ATTEMPT_LIMIT && (next_attempt_at matches Some(t) && t <= now)),
{
    match next_attempt_at {
        Some(t) => attempt_count < DIGEST_ATTEMPT_LIMIT && t <= now,
        None => false,
    }
}

} // verus!
