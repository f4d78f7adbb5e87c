use chrono::{Local, TimeZone};
use shanji::domain::{Item, Tag};
use shanji::error::AppError;
use shanji::summary::{
    collect_placeholders, collection_structure_error, escape_xml, item_in_period, period_bounds,
    preview_template, render_document_xml, render_ends_within, supported_placeholder, validate_summary_request,
    CollectionRows, FieldMap, SummaryRequest,
};

fn fields(pairs: &[(&str, &str)]) -> FieldMap {
    let mut map = FieldMap::new();
    for (k, v) in pairs {
        map.insert(k.to_string(), v.to_string());
    }
    map
}

fn message(error: AppError) -> String {
    match error {
        AppError::Validation(m) => m,
        other => panic!("unexpected {other:?}"),
    }
}

#[test]
fn scalar_and_collection_rows_are_replaced_without_touching_formatting() {
    let xml = r#"<w:document><w:body><w:p><w:r><w:t>{{period_label}}</w:t></w:r></w:p><w:tbl><w:tr><w:tc><w:p><w:r><w:t>{{open_item.title}}</w:t></w:r></w:p></w:tc><w:tc><w:p><w:r><w:t>{{open_item.status}}</w:t></w:r></w:p></w:tc></w:tr></w:tbl></w:body></w:document>"#;
    let scalar = fields(&[("period_label", "2026 年 9 月")]);
    let mut rows = CollectionRows::new();
    rows.insert(
        "open_item".into(),
        vec![
            fields(&[("title", "核对 <合同>"), ("status", "待处理")]),
            fields(&[("title", "提交总结"), ("status", "已逾期")]),
        ],
    );
    let rendered = render_document_xml(xml, &scalar, &rows).unwrap();
    assert!(rendered.contains("2026 年 9 月"));
    assert!(rendered.contains("核对 &lt;合同&gt;"));
    assert_eq!(rendered.matches("<w:tr>").count(), 2);
    assert!(collect_placeholders(&rendered).is_empty());
}

#[test]
fn mixed_collection_placeholders_in_one_table_row_are_rejected() {
    let xml = r#"<w:document><w:body><w:tbl><w:tr><w:tc>{{open_item.title}}</w:tc><w:tc>{{completed_item.title}}</w:tc></w:tr></w:tbl></w:body></w:document>"#;
    assert_eq!(
        collection_structure_error(xml).as_deref(),
        Some("同一表格模板行不能混用两种事项列表占位符。")
    );
}

#[test]
fn list_placeholders_outside_a_row_and_open_rows_are_reported() {
    assert_eq!(
        collection_structure_error("<w:p>{{category.name}}</w:p>").as_deref(),
        Some("category 列表占位符必须放在 Word 表格模板行中。")
    );
    assert_eq!(
        collection_structure_error("<w:tr><w:tc>x</w:tc>").as_deref(),
        Some("Word 表格模板行结构不完整。")
    );
    assert_eq!(collection_structure_error("<w:tr>{{open_item.title}}</w:tr><w:p>{{period_label}}</w:p>"), None);
}

#[test]
fn placeholders_are_distinct_trimmed_and_sorted() {
    let names = collect_placeholders("{{ b }} {{a}} {{b}} {{unclosed");
    assert_eq!(names, vec!["a".to_string(), "b".to_string()]);
    assert!(supported_placeholder("open_item.due_at"));
    assert!(!supported_placeholder("open_item.notes"));
}

#[test]
fn template_preview_counts_and_explains() {
    let preview = preview_template("t.docx", "<w:p>{{period_label}}{{nope}}</w:p>");
    assert!(!preview.valid);
    assert_eq!(preview.unsupported_placeholders, vec!["nope".to_string()]);
    assert_eq!(preview.message, "有 1 个占位符暂不支持，请修改模板后重试。");
    let preview = preview_template("t.docx", "<w:p>{{period_label}}{{total_count}}</w:p>");
    assert!(preview.valid);
    assert_eq!(preview.message, "已识别 2 个占位符，可以生成小结。");
    let preview = preview_template("t.docx", "<w:p>nothing</w:p>");
    assert_eq!(preview.message, "模板中没有找到受支持的占位符。");
}

#[test]
fn leftover_placeholders_are_listed_in_order() {
    let error = render_document_xml("{{zeta}}{{alpha}}", &FieldMap::new(), &CollectionRows::new()).unwrap_err();
    assert_eq!(message(error), "模板占位符没有完整替换：alpha、zeta");
}

#[test]
fn xml_escape_uses_the_apostrophe_entity() {
    assert_eq!(escape_xml("<a & 'b' \"c\">"), "&lt;a &amp; &apos;b&apos; &quot;c&quot;&gt;");
}

fn request(period: &str, month: Option<u32>, quarter: Option<u32>) -> SummaryRequest {
    SummaryRequest {
        period: period.into(),
        year: 2026,
        month,
        quarter,
        template_path: "/tmp/template.docx".into(),
        output_path: "/tmp/out.DOCX".into(),
    }
}

#[test]
fn summary_requests_are_checked_before_reading_files() {
    assert!(validate_summary_request(&request("MONTH", Some(9), None)).is_ok());
    assert_eq!(message(validate_summary_request(&request("WEEK", None, None)).unwrap_err()), "请选择月度或季度小结");
    let mut same = request("MONTH", Some(9), None);
    same.output_path = "/tmp/./template.docx".into();
    assert_eq!(message(validate_summary_request(&same).unwrap_err()), "请为小结选择不同于模板的保存位置");
    let mut wrong = request("QUARTER", None, Some(1));
    wrong.template_path = "/tmp/template.doc".into();
    assert_eq!(message(validate_summary_request(&wrong).unwrap_err()), "请选择有效的 Word 模板（.docx）");
}

#[test]
fn periods_are_labelled_and_bounded_by_local_midnights() {
    let (start, end, label) = period_bounds(&request("MONTH", Some(12), None)).unwrap();
    assert_eq!(label, "2026 年 12 月");
    assert_eq!(start, Local.with_ymd_and_hms(2026, 12, 1, 0, 0, 0).unwrap().timestamp());
    assert_eq!(end, Local.with_ymd_and_hms(2027, 1, 1, 0, 0, 0).unwrap().timestamp());
    let (_, _, label) = period_bounds(&request("QUARTER", None, Some(3))).unwrap();
    assert_eq!(label, "2026 年第 3 季度");
    assert_eq!(message(period_bounds(&request("MONTH", Some(13), None)).unwrap_err()), "请选择有效月份");
    assert_eq!(message(period_bounds(&request("QUARTER", None, None)).unwrap_err()), "请选择有效季度");
}

fn item(status: &str, created: &str, due: &str, completed: Option<&str>) -> Item {
    Item {
        id: "i".into(),
        title: "t".into(),
        notes: String::new(),
        status: status.into(),
        category_id: None,
        category_name: None,
        due_at: due.into(),
        due_local_date: "2026-09-01".into(),
        due_local_time: "18:00".into(),
        due_source: "EXPLICIT".into(),
        rollover_policy: "NONE".into(),
        rollover_count: 0,
        completion_policy: "NORMAL".into(),
        repeat_interval_minutes: None,
        next_reminder_at: None,
        reminder_paused: false,
        bypass_app_quiet_hours: false,
        created_at: created.into(),
        updated_at: created.into(),
        completed_at: completed.map(str::to_string),
        deleted_at: None,
        event_kind: None,
        reminder_plan: "ONCE".into(),
        important: false,
        time_mode: "SPECIFIED".into(),
        start_at: None,
        end_at: None,
        target_at: None,
        lead_value: None,
        lead_unit: None,
        cadence_value: None,
        cadence_unit: None,
        emphasis_max_per_day: 8,
        repeat_time_mode: "SPECIFIED".into(),
        repeat_times: Vec::new(),
        tags: Vec::<Tag>::new(),
    }
}

#[test]
fn items_belong_to_a_period_by_their_dates_or_by_being_overdue() {
    let start = 1_000_000;
    let end = 2_000_000;
    let inside = "1970-01-12T14:00:00+00:00";
    let before = "1970-01-01T00:00:10+00:00";
    let after = "1970-02-01T00:00:00+00:00";
    assert!(item_in_period(&item("DONE", inside, after, None), start, end));
    assert!(!item_in_period(&item("DONE", before, after, Some(after)), start, end));
    assert!(item_in_period(&item("OPEN", before, before, None), start, end));
    assert!(item_in_period(&item("DONE", before, after, Some(inside)), start, end));
}

#[test]
fn list_expansion_that_never_ends_is_detected_before_rendering() {
    let xml = r#"<w:tbl><w:tr><w:tc>{{open_item.title}}</w:tc></w:tr></w:tbl>"#;
    let mut ending = CollectionRows::new();
    ending.insert("open_item".into(), vec![fields(&[("title", "甲")]), fields(&[("title", "乙")])]);
    assert!(render_ends_within(xml, &ending, 50));
    let mut endless = CollectionRows::new();
    endless.insert("open_item".into(), vec![fields(&[("title", "{{open_item.title}}")])]);
    assert!(!render_ends_within(xml, &endless, 50));
}
