use shanji::domain::{Item, Tag};
use shanji::error::AppError;
use shanji::export::{
    detail_row, excel_safe_text, filter_items, reminder_label, reminder_plan_label, report_sheets,
    status_label, tally_items, ExportFilterInput,
};

fn sample_item(id: &str, status: &str, category_id: Option<&str>, tag_id: Option<&str>, created_at: &str) -> Item {
    Item {
        id: id.into(),
        title: format!("事项 {id}"),
        notes: String::new(),
        status: status.into(),
        category_id: category_id.map(str::to_string),
        category_name: category_id.map(|_| "工作".into()),
        due_at: "2026-08-28T10:00:00+00:00".into(),
        due_local_date: "2026-08-28".into(),
        due_local_time: "18:00".into(),
        due_source: "EXPLICIT".into(),
        rollover_policy: "NONE".into(),
        rollover_count: 0,
        completion_policy: "NORMAL".into(),
        repeat_interval_minutes: None,
        next_reminder_at: None,
        reminder_paused: false,
        bypass_app_quiet_hours: false,
        created_at: created_at.into(),
        updated_at: created_at.into(),
        completed_at: None,
        deleted_at: None,
        event_kind: Some("ORDINARY".into()),
        reminder_plan: "REPEAT".into(),
        important: false,
        time_mode: "SPECIFIED".into(),
        start_at: None,
        end_at: None,
        target_at: None,
        lead_value: None,
        lead_unit: None,
        cadence_value: None,
        cadence_unit: None,
        emphasis_max_per_day: 8,
        repeat_time_mode: "SPECIFIED".into(),
        repeat_times: vec!["18:00".into()],
        tags: tag_id
            .map(|id| vec![Tag { id: id.into(), name: "客户".into(), color: "#B06C49".into() }])
            .unwrap_or_default(),
    }
}

fn filter(status: &str) -> ExportFilterInput {
    ExportFilterInput {
        status: status.into(),
        event_kind: None,
        category_id: None,
        tag_id: None,
        created_from: None,
        created_to: None,
    }
}

fn validation_message(error: AppError) -> String {
    match error {
        AppError::Validation(message) => message,
        other => panic!("unexpected error {other:?}"),
    }
}

#[test]
fn user_text_that_looks_like_a_formula_is_escaped() {
    assert_eq!(excel_safe_text("=HYPERLINK(\"bad\")"), "'=HYPERLINK(\"bad\")");
    assert_eq!(excel_safe_text("+1+1"), "'+1+1");
    assert_eq!(excel_safe_text("  =1+1"), "'  =1+1");
    assert_eq!(excel_safe_text("普通事项"), "普通事项");
}

#[test]
fn export_filters_status_type_tag_and_created_range_together() {
    let items = vec![
        sample_item("keep", "OPEN", Some("work"), Some("customer"), "2026-08-20T08:00:00+00:00"),
        sample_item("wrong-status", "DONE", Some("work"), Some("customer"), "2026-08-20T08:00:00+00:00"),
        sample_item("wrong-tag", "OPEN", Some("work"), Some("internal"), "2026-08-20T08:00:00+00:00"),
        sample_item("too-old", "OPEN", Some("work"), Some("customer"), "2026-07-20T08:00:00+00:00"),
    ];
    let filtered = filter_items(
        items,
        &ExportFilterInput {
            status: "open".into(),
            event_kind: Some("ORDINARY".into()),
            category_id: Some("work".into()),
            tag_id: Some("customer".into()),
            created_from: Some("2026-08-01T00:00:00+00:00".into()),
            created_to: Some("2026-08-31T23:59:59+00:00".into()),
        },
    )
    .unwrap();
    assert_eq!(filtered.len(), 1);
    assert_eq!(filtered[0].id, "keep");
}

#[test]
fn export_filter_errors_name_the_problem() {
    assert_eq!(validation_message(filter_items(Vec::new(), &filter("later")).unwrap_err()), "导出状态筛选无效");
    let mut bad_date = filter("all");
    bad_date.created_to = Some("yesterday".into());
    assert_eq!(validation_message(filter_items(Vec::new(), &bad_date).unwrap_err()), "导出日期筛选无效");
    let mut reversed = filter("all");
    reversed.created_from = Some("2026-08-02T00:00:00+00:00".into());
    reversed.created_to = Some("2026-08-01T00:00:00+00:00".into());
    assert_eq!(
        validation_message(filter_items(Vec::new(), &reversed).unwrap_err()),
        "导出开始日期不能晚于结束日期"
    );
}

#[test]
fn export_range_compares_fractions_of_a_second() {
    let items = vec![sample_item("early", "OPEN", None, None, "2026-08-01T00:00:00.500+00:00")];
    let mut range = filter("all");
    range.created_from = Some("2026-08-01T00:00:00.700+00:00".into());
    assert!(filter_items(items, &range).unwrap().is_empty());
    let items = vec![sample_item("exact", "DONE", None, None, "2026-08-01T08:00:00+08:00")];
    let mut range = filter("done");
    range.created_from = Some("2026-08-01T00:00:00+00:00".into());
    range.created_to = Some("2026-08-01T00:00:00+00:00".into());
    assert_eq!(filter_items(items, &range).unwrap().len(), 1);
}

#[test]
fn labels_cover_every_known_value() {
    assert_eq!(status_label("OPEN"), "待处理");
    assert_eq!(status_label("DELETED"), "回收站");
    assert_eq!(status_label("?"), "未知");
    assert_eq!(reminder_plan_label("CUSTOM"), "自定义");
    assert_eq!(reminder_plan_label("X"), "未知方案");
    let mut item = sample_item("a", "OPEN", None, None, "2026-08-01T00:00:00+00:00");
    assert_eq!(reminder_label(&item), "无提醒计划");
    item.next_reminder_at = Some("2026-08-02T00:00:00+00:00".into());
    assert_eq!(reminder_label(&item), "等待提醒");
    item.reminder_paused = true;
    assert_eq!(reminder_label(&item), "已暂停");
    item.status = "DONE".into();
    assert_eq!(reminder_label(&item), "已停止");
}

#[test]
fn detail_row_holds_sixteen_cells() {
    let mut item = sample_item("a", "OPEN", Some("work"), Some("t"), "not a time");
    item.title = "=SUM(A1)".into();
    item.rollover_count = 12;
    item.event_kind = Some("NEW_KIND".into());
    let row = detail_row(&item);
    assert_eq!(row.len(), 16);
    assert_eq!(row[0], "'=SUM(A1)");
    assert_eq!(row[2], "待处理");
    assert_eq!(row[3], "未知类型");
    assert_eq!(row[4], "工作");
    assert_eq!(row[5], "否");
    assert_eq!(row[6], "重复");
    assert_eq!(row[7], "客户");
    assert_eq!(row[8], "not a time");
    assert_eq!(row[9], "2026-08-28 18:00");
    assert_eq!(row[10], "");
    assert_eq!(row[14], "12");
}

#[test]
fn tallies_count_every_item_once_in_name_order() {
    let mut must = sample_item("b", "DONE", None, None, "2026-08-01T00:00:00+00:00");
    must.completion_policy = "MUST_COMPLETE_TODAY".into();
    must.event_kind = Some("TODAY_MUST".into());
    let items = vec![
        sample_item("a", "OPEN", Some("work"), None, "2026-08-01T00:00:00+00:00"),
        must,
        sample_item("c", "OPEN", Some("work"), None, "2026-08-01T00:00:00+00:00"),
    ];
    let kinds = tally_items(&items, true);
    let total: u32 = kinds.iter().map(|t| t.total).sum();
    assert_eq!(total, 3);
    let ordinary = kinds.iter().find(|t| t.name == "普通").unwrap();
    assert_eq!((ordinary.total, ordinary.open, ordinary.done), (2, 2, 0));
    let today = kinds.iter().find(|t| t.name == "今日必做").unwrap();
    assert_eq!((today.total, today.done, today.must_complete_today), (1, 1, 1));
    assert!(kinds.windows(2).all(|w| w[0].name < w[1].name));
    let categories = tally_items(&items, false);
    assert_eq!(categories.len(), 2);
    assert_eq!(categories[0].name, "工作");
    assert_eq!(categories[1].name, "未分类");
    let sheets = report_sheets(&items);
    assert_eq!(sheets.detail.len(), 3);
}

#[test]
fn the_report_has_three_sheets_laid_out_in_order() {
    let layouts = shanji::export::report_layouts();
    let names: Vec<&str> = layouts.iter().map(|l| l.name.as_str()).collect();
    assert_eq!(names, vec!["事项明细", "事件类型汇总", "类型汇总"]);
    assert_eq!(layouts[0].headers.len(), 16);
    assert_eq!(layouts[0].headers[9], "当前到期时间（本地）");
    assert_eq!(layouts[0].widths[0], 35);
    assert_eq!(layouts[1].headers, vec!["事件类型", "事项数", "待处理", "已完成", "今日必做"]);
    assert_eq!(layouts[2].widths, vec![24, 12, 12, 12]);
    let tally = shanji::export::Tally { name: "工作".into(), total: 5, open: 3, done: 2, must_complete_today: 1 };
    assert_eq!(shanji::export::tally_cells(&tally, true), vec![5, 3, 2, 1]);
    assert_eq!(shanji::export::tally_cells(&tally, false), vec![5, 3, 2]);
}
