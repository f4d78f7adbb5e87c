use shanji::domain::Item;
use shanji::summary_report::{
    category_rows, completion_rate, item_row, kind_rows, local_minute_text, partition_items,
    period_summary_text, summary_content, summary_kind_label, summary_order, summary_scalars,
};

fn item(title: &str, status: &str, kind: Option<&str>, category: Option<&str>, due_at: &str, important: bool) -> Item {
    Item {
        id: title.into(),
        title: title.into(),
        notes: String::new(),
        status: status.into(),
        category_id: category.map(str::to_string),
        category_name: category.map(str::to_string),
        due_at: due_at.into(),
        due_local_date: "2026-09-10".into(),
        due_local_time: "18:00".into(),
        due_source: "EXPLICIT".into(),
        rollover_policy: "NONE".into(),
        rollover_count: 0,
        completion_policy: "NORMAL".into(),
        repeat_interval_minutes: None,
        next_reminder_at: None,
        reminder_paused: false,
        bypass_app_quiet_hours: false,
        created_at: "2026-09-01T00:00:00+00:00".into(),
        updated_at: "2026-09-01T00:00:00+00:00".into(),
        completed_at: None,
        deleted_at: None,
        event_kind: kind.map(str::to_string),
        reminder_plan: "ONCE".into(),
        important,
        time_mode: "SPECIFIED".into(),
        start_at: None,
        end_at: None,
        target_at: None,
        lead_value: None,
        lead_unit: None,
        cadence_value: None,
        cadence_unit: None,
        emphasis_max_per_day: 3,
        repeat_time_mode: "SPECIFIED".into(),
        repeat_times: Vec::new(),
        tags: Vec::new(),
    }
}

fn pairs(map: &shanji::summary::FieldMap) -> Vec<(String, String)> {
    map.to_pairs()
}

const NOW_TEXT: &str = "2026-09-05T00:00:00+00:00";

fn items() -> Vec<Item> {
    vec![
        item("a", "DONE", Some("ORDINARY"), Some("工作"), "2026-09-02T00:00:00+00:00", true),
        item("b", "OPEN", Some("ORDINARY"), Some("工作"), "2026-09-03T00:00:00+00:00", false),
        item("c", "OPEN", Some("WARNING"), None, "2026-09-08T00:00:00+00:00", true),
        item("d", "OPEN", None, Some("家庭"), "2026-09-09T00:00:00+00:00", false),
    ]
}

#[test]
fn kinds_are_named_and_unknown_ones_wait() {
    assert_eq!(summary_kind_label(Some("TODAY_MUST")), "今日必做");
    assert_eq!(summary_kind_label(Some("YEARLY")), "年度");
    assert_eq!(summary_kind_label(Some("SOMETHING")), "待选择");
    assert_eq!(summary_kind_label(None), "待选择");
    assert_eq!(local_minute_text(None), "");
    assert_eq!(local_minute_text(Some("garbage")), "");
    assert_eq!(local_minute_text(Some("2026-09-01T10:00:00+00:00")).len(), 16);
}

#[test]
fn items_are_partitioned_and_overdue_counted() {
    let part = partition_items(&items(), NOW_TEXT);
    assert_eq!(part.completed, vec![0]);
    assert_eq!(part.open, vec![1, 2, 3]);
    assert_eq!(part.important, vec![0, 2]);
    assert_eq!(part.overdue, 1);
}

#[test]
fn completion_rate_rounds_halves_to_even() {
    assert_eq!(completion_rate(0, 0), "0%");
    assert_eq!(completion_rate(1, 8), "12%");
    assert_eq!(completion_rate(3, 8), "38%");
    assert_eq!(completion_rate(1, 3), "33%");
    assert_eq!(completion_rate(2, 3), "67%");
    assert_eq!(completion_rate(4, 4), "100%");
}

#[test]
fn period_sentence_and_scalars() {
    assert_eq!(
        period_summary_text(4, 1, 3, 1, 2),
        "本期共纳入 4 项，完成 1 项，期末未完成 3 项，其中逾期 1 项、重要 2 项。"
    );
    let scalars = pairs(&summary_scalars("2026年9月", "2026-09-05 08:00", 4, 1, 3, 1, 2));
    let get = |key: &str| scalars.iter().find(|(k, _)| k == key).map(|(_, v)| v.clone()).unwrap();
    assert_eq!(get("report_title"), "2026年9月小结");
    assert_eq!(get("completion_rate"), "25%");
    assert_eq!(get("overdue_count"), "1");
    let keys: Vec<&str> = scalars.iter().map(|(k, _)| k.as_str()).collect();
    let mut sorted = keys.clone();
    sorted.sort();
    assert_eq!(keys, sorted);
}

#[test]
fn tables_count_by_kind_and_category() {
    let kinds = kind_rows(&items());
    assert_eq!(kinds.len(), 7);
    assert_eq!(
        pairs(&kinds[0]),
        vec![("completed".to_string(), "1".to_string()), ("name".to_string(), "普通".to_string()), ("total".to_string(), "2".to_string())]
    );
    assert_eq!(pairs(&kinds[3])[1].1, "预警");
    let categories = category_rows(&items());
    let names: Vec<String> = categories.iter().map(|row| pairs(row)[1].1.clone()).collect();
    let mut sorted = names.clone();
    sorted.sort();
    assert_eq!(names, sorted);
    assert_eq!(names.len(), 3);
    let work = categories.iter().find(|row| pairs(row)[1].1 == "工作").unwrap();
    assert_eq!(pairs(work)[2].1, "2");
    assert_eq!(pairs(work)[0].1, "1");
}

#[test]
fn item_rows_show_standing() {
    let row = pairs(&item_row(&items()[1], NOW_TEXT));
    let get = |key: &str| row.iter().find(|(k, _)| k == key).map(|(_, v)| v.clone()).unwrap();
    assert_eq!(get("status"), "已逾期");
    assert_eq!(get("due_at"), "2026-09-10 18:00");
    assert_eq!(get("event_kind"), "普通");
    assert_eq!(get("completed_at"), "");
    assert_eq!(pairs(&item_row(&items()[0], NOW_TEXT)).iter().find(|(k, _)| k == "status").unwrap().1, "已完成");
    assert_eq!(pairs(&item_row(&items()[2], NOW_TEXT)).iter().find(|(k, _)| k == "status").unwrap().1, "待处理");
}

#[test]
fn summary_lists_items_by_due_time_then_title_keeping_ties_in_order() {
    let list = vec![
        item("b", "OPEN", None, None, "2026-09-03T00:00:00+00:00", false),
        item("a", "OPEN", None, None, "2026-09-03T00:00:00+00:00", false),
        item("z", "OPEN", None, None, "2026-09-01T00:00:00+00:00", false),
        item("a", "DONE", None, None, "2026-09-03T00:00:00+00:00", false),
    ];
    assert_eq!(summary_order(&list), vec![2, 1, 3, 0]);
    assert!(summary_order(&Vec::<Item>::new()).is_empty());
}

#[test]
fn summary_content_counts_and_fills_every_table() {
    let content = summary_content(&items(), "2026年9月", "2026-09-05 08:00", NOW_TEXT);
    assert_eq!(content.item_count, 4);
    assert_eq!(content.completed_count, 1);
    assert_eq!(content.open_count, 3);
    assert_eq!(content.overdue_count, 1);
    assert_eq!(content.important_count, 2);
    assert_eq!(content.collections.rows("open_item").unwrap().len(), 3);
    assert_eq!(content.collections.rows("event_kind").unwrap().len(), 7);
    assert_eq!(content.collections.rows("category").unwrap().len(), 3);
    let scalars = pairs(&content.scalar);
    assert!(scalars.iter().any(|(k, v)| k == "period_summary"
        && v == "本期共纳入 4 项，完成 1 项，期末未完成 3 项，其中逾期 1 项、重要 2 项。"));
}
