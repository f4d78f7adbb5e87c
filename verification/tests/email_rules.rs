use shanji::email_rules::{
    chosen_rule_id, digest_claim_interrupted, digest_group_due, digest_key, digest_retry_ready,
    first_rule_per_recipient, idempotency_key, matching_rules, plan_claims, recipient_key,
    valid_email, validate_match_value, validate_rule, ClaimStep, EmailDeliveryRule,
    EmailDeliveryRuleInput, DIGEST_ATTEMPT_LIMIT,
};
use shanji::records::DueNotification;
use shanji::schedule::email_retry_at;

fn rule(id: &str, dimension: &str, value: &str, strategy: &str, recipient: &str) -> EmailDeliveryRule {
    EmailDeliveryRule {
        id: id.into(),
        match_dimension: dimension.into(),
        match_value: value.into(),
        strategy: strategy.into(),
        recipient: recipient.into(),
        digest_local_time: "18:00".into(),
        enabled: true,
        created_at: "2026-09-01T00:00:00+00:00".into(),
        updated_at: "2026-09-01T00:00:00+00:00".into(),
    }
}

fn notification(event_id: &str) -> DueNotification {
    DueNotification {
        event_id: event_id.into(),
        item_id: "item-1".into(),
        title: "规则测试".into(),
        due_local_date: "2026-09-03".into(),
        due_local_time: "09:00".into(),
        completion_policy: "NORMAL".into(),
        event_kind: Some("ORDINARY".into()),
        reminder_plan: "REPEAT".into(),
        tag_ids: vec!["t1".into()],
    }
}

fn input(recipient: &str) -> EmailDeliveryRuleInput {
    EmailDeliveryRuleInput {
        id: None,
        match_dimension: "EVENT_KIND".into(),
        match_value: "ORDINARY".into(),
        strategy: "DAILY_DIGEST".into(),
        recipient: recipient.into(),
        digest_local_time: "18:00".into(),
        enabled: true,
    }
}

#[test]
fn overlapping_rules_for_one_address_give_one_delivery() {
    let rules = vec![
        rule("r1", "EVENT_KIND", "ORDINARY", "EACH_PLAN", "me@example.com"),
        rule("r2", "CATEGORY", "work", "EACH_PLAN", "me@example.com"),
        rule("r3", "TAG", "t1", "FIRST_DUE", "other@example.com"),
        rule("r4", "TAG", "t2", "FIRST_DUE", "third@example.com"),
    ];
    let steps = plan_claims(rules, &notification("event-1"), &Some("work".into()), "2026-09-03");
    assert_eq!(steps.len(), 2);
    match &steps[0] {
        Some(ClaimStep::Immediate { rule_id, recipient, key, .. }) => {
            assert_eq!(rule_id, "r1");
            assert_eq!(recipient, "me@example.com");
            assert_eq!(key, "event-1:email:8c2a47d3bdb8d309");
        }
        other => panic!("unexpected {other:?}"),
    }
    match &steps[1] {
        Some(ClaimStep::Immediate { rule_id, .. }) => assert_eq!(rule_id, "r3"),
        other => panic!("unexpected {other:?}"),
    }
}

#[test]
fn delivery_keys_follow_the_strategy() {
    let n = notification("event-2");
    assert_eq!(idempotency_key("FIRST_DUE", &n, "k", "2026-09-03").as_deref(), Some("item-1:email:k:first"));
    assert_eq!(
        idempotency_key("DAILY_FIRST", &n, "k", "2026-09-03").as_deref(),
        Some("item-1:email:k:day:2026-09-03")
    );
    assert_eq!(idempotency_key("EACH_PLAN", &n, "k", "2026-09-03").as_deref(), Some("event-2:email:k"));
    assert_eq!(idempotency_key("DAILY_DIGEST", &n, "k", "2026-09-03"), None);
    assert_eq!(recipient_key("me@example.com"), "8c2a47d3bdb8d309");
    assert_eq!(digest_key("me@example.com", "2026-09-04"), "digest:8c2a47d3bdb8d309:2026-09-04");
}

#[test]
fn daily_first_key_is_the_same_all_day_for_each_event() {
    let first = idempotency_key("DAILY_FIRST", &notification("event-1"), "k", "2026-09-03");
    let second = idempotency_key("DAILY_FIRST", &notification("event-2"), "k", "2026-09-03");
    assert_eq!(first, second);
}

#[test]
fn digest_rules_queue_instead_of_sending() {
    let rules = vec![rule("d", "EVENT_KIND", "ORDINARY", "DAILY_DIGEST", "me@example.com")];
    let steps = plan_claims(rules, &notification("e"), &None, "2026-09-03");
    match &steps[0] {
        Some(ClaimStep::Digest { rule_id, recipient }) => {
            assert_eq!(rule_id, "d");
            assert_eq!(recipient, "me@example.com");
        }
        other => panic!("unexpected {other:?}"),
    }
}

#[test]
fn rules_match_by_kind_category_or_tag_in_store_order() {
    let rules = vec![
        rule("a", "TAG", "t1", "EACH_PLAN", "x@y.z"),
        rule("b", "CATEGORY", "home", "EACH_PLAN", "x@y.z"),
        rule("c", "EVENT_KIND", "ORDINARY", "EACH_PLAN", "a@y.z"),
    ];
    let matched = matching_rules(rules, &Some("ORDINARY".into()), &Some("work".into()), &vec!["t1".into()]);
    let ids: Vec<&str> = matched.iter().map(|r| r.id.as_str()).collect();
    assert_eq!(ids, vec!["a", "c"]);
    let firsts = first_rule_per_recipient(matched);
    let ids: Vec<&str> = firsts.iter().map(|r| r.id.as_str()).collect();
    assert_eq!(ids, vec!["c", "a"]);
}

#[test]
fn addresses_need_a_local_part_and_a_dotted_domain() {
    assert!(valid_email("me@example.com"));
    assert!(valid_email("a@b@example.com"));
    assert!(!valid_email("@example.com"));
    assert!(!valid_email("me@localhost"));
    assert!(!valid_email("me@.example.com"));
    assert!(!valid_email("me@example.com."));
    assert!(!valid_email("me.example.com"));
}

#[test]
fn rules_are_checked_before_saving() {
    assert!(validate_rule(&input(" me@example.com ")).is_ok());
    let mut bad = input("me@example.com");
    bad.match_dimension = "PRIORITY".into();
    assert_eq!(validate_rule(&bad).unwrap_err().message(), "请选择邮件规则的匹配范围");
    let mut bad = input("me@example.com");
    bad.match_value = "  ".into();
    assert_eq!(validate_rule(&bad).unwrap_err().message(), "请选择邮件规则要匹配的内容");
    let mut bad = input("me@example.com");
    bad.strategy = "HOURLY".into();
    assert_eq!(validate_rule(&bad).unwrap_err().message(), "请选择邮件投递时机");
    assert_eq!(validate_rule(&input("nobody")).unwrap_err().message(), "请填写有效的邮件收件地址");
    let mut bad = input("me@example.com");
    bad.digest_local_time = "25:00".into();
    assert_eq!(validate_rule(&bad).unwrap_err().message(), "时间格式无效：25:00");
    assert!(validate_match_value(&input("me@example.com"), false).is_ok());
    let mut category = input("me@example.com");
    category.match_dimension = "CATEGORY".into();
    assert!(validate_match_value(&category, false).is_err());
    assert!(validate_match_value(&category, true).is_ok());
}

#[test]
fn blank_rule_ids_are_replaced() {
    assert_eq!(chosen_rule_id(&Some("rule-1".into())), "rule-1");
    assert_eq!(chosen_rule_id(&Some("  ".into())).len(), 36);
    assert_eq!(chosen_rule_id(&None).len(), 36);
}

#[test]
fn failed_digests_retry_twice_then_stop() {
    assert_eq!(email_retry_at(1, 1_000_000), Some(1_000_060));
    assert_eq!(email_retry_at(2, 1_000_000), Some(1_000_300));
    assert_eq!(email_retry_at(3, 1_000_000), None);
}

fn immediate_keys(steps: &[Option<ClaimStep>]) -> Vec<String> {
    steps
        .iter()
        .filter_map(|step| match step {
            Some(ClaimStep::Immediate { key, .. }) => Some(key.clone()),
            _ => None,
        })
        .collect()
}

#[test]
fn overlapping_rules_for_same_address_create_one_delivery() {
    let rules = vec![
        rule("r1", "EVENT_KIND", "ORDINARY", "EACH_PLAN", "me@example.com"),
        rule("r2", "CATEGORY", "work", "EACH_PLAN", "me@example.com"),
    ];
    let mut n = notification("event-1");
    n.tag_ids = Vec::new();
    let steps = plan_claims(rules, &n, &Some("work".into()), "2026-09-03");
    assert_eq!(steps.len(), 1);
    assert_eq!(immediate_keys(&steps).len(), 1);
}

#[test]
fn daily_first_is_idempotent_per_local_day() {
    let rules = || vec![rule("r1", "EVENT_KIND", "ORDINARY", "DAILY_FIRST", "me@example.com")];
    let first = immediate_keys(&plan_claims(rules(), &notification("event-1"), &None, "2026-09-03"));
    let second = immediate_keys(&plan_claims(rules(), &notification("event-2"), &None, "2026-09-03"));
    assert_eq!(first.len(), 1);
    // The store accepts one delivery per key, so the second event of the day adds none.
    assert_eq!(first, second);
    let next_day = immediate_keys(&plan_claims(rules(), &notification("event-3"), &None, "2026-09-04"));
    assert_ne!(first, next_day);
}

#[test]
fn missed_digest_is_claimed_after_restart_before_the_next_digest_time() {
    let rules = vec![rule("d", "EVENT_KIND", "ORDINARY", "DAILY_DIGEST", "me@example.com")];
    let steps = plan_claims(rules, &notification("digest-event"), &None, "2026-09-03");
    assert!(immediate_keys(&steps).is_empty());
    assert!(matches!(steps[0], Some(ClaimStep::Digest { .. })));
    // Queued at 17:30 for that day's 18:00 digest: not yet due.
    assert!(!digest_group_due("2026-09-03", "18:00", "2026-09-03", "17:30"));
    // After a restart the next morning it is due before the next digest time.
    assert!(digest_group_due("2026-09-03", "18:00", "2026-09-04", "08:00"));
    assert!(digest_group_due("2026-09-03", "18:00", "2026-09-03", "18:00"));
    assert!(!digest_group_due("2026-09-05", "18:00", "2026-09-04", "23:00"));
}

#[test]
fn interrupted_digest_claim_stops_after_three_recoveries() {
    let start: i64 = 1_788_775_260;
    let mut attempt_count: u32 = 0;
    let mut attempted_at = start;
    let mut claims = vec![1];
    for minutes in [3i64, 6, 9] {
        let now = start + minutes * 60;
        let mut next_attempt_at = None;
        if digest_claim_interrupted(attempted_at, now, attempt_count) {
            attempt_count += 1;
            next_attempt_at = Some(now);
        }
        if digest_retry_ready(attempt_count, next_attempt_at, now) {
            attempted_at = now;
            claims.push(1);
        } else {
            claims.push(0);
        }
    }
    assert_eq!(claims, vec![1, 1, 1, 0]);
    assert_eq!(attempt_count, DIGEST_ATTEMPT_LIMIT);
    assert!(!digest_claim_interrupted(start, start + 60, 0));
    assert!(digest_claim_interrupted(start, start + 120, 2));
    assert!(!digest_retry_ready(1, None, start));
    assert!(!digest_retry_ready(1, Some(start + 1), start));
}

#[test]
fn each_address_keeps_one_rule_the_first_for_it() {
    let rules = vec![
        rule("a", "EVENT_KIND", "ORDINARY", "EACH_PLAN", "b@y.z"),
        rule("b", "EVENT_KIND", "ORDINARY", "EACH_PLAN", "a@y.z"),
        rule("c", "EVENT_KIND", "ORDINARY", "EACH_PLAN", "b@y.z"),
        rule("d", "EVENT_KIND", "ORDINARY", "EACH_PLAN", "c@y.z"),
        rule("e", "EVENT_KIND", "ORDINARY", "EACH_PLAN", "a@y.z"),
    ];
    let firsts = first_rule_per_recipient(rules);
    let kept: Vec<(&str, &str)> = firsts.iter().map(|r| (r.id.as_str(), r.recipient.as_str())).collect();
    assert_eq!(kept, vec![("b", "a@y.z"), ("a", "b@y.z"), ("d", "c@y.z")]);
}
