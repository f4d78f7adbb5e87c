use shanji::clock::LocalDate;
use shanji::error::AppError;
use shanji::timeline::{
    business_start, date_with_clamped_day, keep_visible, last_day_of_month, life_segment, lifecycle,
    occurrence_date, parse_anchor, periodic, periodic_segments, read_instant, state_name, state_spans,
    validate_query, validate_saved_scale, visible_range, Instant, OccurrenceLabel, Segment,
    SegmentShape, StateKind, TimelineQuery, TimelineSourceItem, TimelineTally,
    TimelineUnscheduledItem, MAX_UNSCHEDULED_ITEMS, MAX_VISIBLE_ENTRIES,
};
use shanji::timeline::unscheduled_by_title;

fn date(year: i32, month: u32, day: u32) -> LocalDate {
    LocalDate { year, month, day }
}

fn at(text: &str) -> Instant {
    read_instant(text).unwrap()
}

fn message(error: AppError) -> String {
    match error {
        AppError::Validation(message) => message,
        other => panic!("unexpected {other:?}"),
    }
}

fn query(scale: &str, kinds: Vec<&str>) -> TimelineQuery {
    TimelineQuery {
        scale: scale.into(),
        anchor_date: "2026-09-03".into(),
        include_done: false,
        event_kinds: kinds.into_iter().map(str::to_string).collect(),
        category_id: None,
        tag_ids: Vec::new(),
    }
}

fn source(kind: Option<&str>, status: &str) -> TimelineSourceItem {
    TimelineSourceItem {
        id: "item".into(),
        title: "样例".into(),
        status: status.into(),
        category_name: None,
        created_at: "2026-09-01T00:00:00Z".into(),
        completed_at: None,
        due_at: Some("2026-09-10T18:00:00Z".into()),
        event_kind: kind.map(str::to_string),
        start_at: None,
        end_at: None,
        target_at: None,
        lead_value: None,
        lead_unit: None,
        important: false,
        tag_names: Vec::new(),
        anchor_day: None,
        anchor_month: None,
    }
}

#[test]
fn month_range_uses_calendar_boundaries() {
    assert_eq!(
        visible_range("MONTH", date(2028, 2, 15)).unwrap(),
        (date(2028, 2, 1), date(2028, 2, 29))
    );
}

#[test]
fn other_ranges_cover_the_day_week_and_year() {
    assert_eq!(visible_range("DAY", date(2026, 9, 3)).unwrap(), (date(2026, 9, 3), date(2026, 9, 3)));
    // 2026-09-03 is a Thursday.
    assert_eq!(visible_range("WEEK", date(2026, 9, 3)).unwrap(), (date(2026, 8, 31), date(2026, 9, 6)));
    assert_eq!(visible_range("YEAR", date(2026, 9, 3)).unwrap(), (date(2026, 1, 1), date(2026, 12, 31)));
    assert_eq!(message(visible_range("DECADE", date(2026, 9, 3)).unwrap_err()), "时间画布范围无效");
}

#[test]
fn queries_and_scales_are_checked() {
    assert!(validate_query(&query("MONTH", vec!["WARNING"])).is_ok());
    assert_eq!(message(validate_query(&query("HOUR", vec![])).unwrap_err()), "请选择日、周、月或年视图");
    assert_eq!(
        message(validate_query(&query("WEEK", vec!["SOMETIMES"])).unwrap_err()),
        "时间画布包含无效的事件筛选"
    );
    assert!(validate_saved_scale("YEAR").is_ok());
    assert_eq!(message(validate_saved_scale("x").unwrap_err()), "请选择有效的时间画布范围");
    assert_eq!(parse_anchor("2026-09-03").unwrap(), date(2026, 9, 3));
    assert_eq!(message(parse_anchor("09/03").unwrap_err()), "时间画布的日期无效");
}

#[test]
fn month_ends_and_clamped_days() {
    assert_eq!(last_day_of_month(2026, 2).unwrap(), date(2026, 2, 28));
    assert_eq!(last_day_of_month(2024, 2).unwrap(), date(2024, 2, 29));
    assert_eq!(message(last_day_of_month(2026, 13).unwrap_err()), "月份无效");
    assert_eq!(date_with_clamped_day(2026, 4, 31).unwrap(), date(2026, 4, 30));
    assert_eq!(date_with_clamped_day(2026, 4, 12).unwrap(), date(2026, 4, 12));
    assert_eq!(date_with_clamped_day(2026, 4, 0).unwrap(), date(2026, 4, 30));
    assert_eq!(occurrence_date(date(2026, 1, 1), 1, 1, 1, 31).unwrap(), date(2026, 2, 28));
    assert_eq!(occurrence_date(date(2026, 1, 1), 2, 1, 1, 31).unwrap(), date(2026, 3, 31));
    assert_eq!(occurrence_date(date(2024, 2, 1), 1, 12, 2, 29).unwrap(), date(2025, 2, 28));
    assert_eq!(occurrence_date(date(2024, 2, 1), 4, 12, 2, 29).unwrap(), date(2028, 2, 29));
}

#[test]
fn lifecycle_ends_at_the_due_time_or_now() {
    let now = at("2026-09-03T00:00:00Z");
    let ordinary = lifecycle(&source(Some("ORDINARY"), "OPEN"), now).unwrap();
    assert_eq!(ordinary.created, at("2026-09-01T00:00:00Z"));
    assert_eq!(ordinary.planned_end, at("2026-09-10T18:00:00Z"));
    assert!(ordinary.has_end);
    let mut open_ended = source(None, "OPEN");
    open_ended.due_at = None;
    let life = lifecycle(&open_ended, now).unwrap();
    assert_eq!(life.planned_end, now);
    assert!(!life.has_end);
    let mut broken = source(None, "OPEN");
    broken.created_at = "damaged-time".into();
    assert_eq!(message(lifecycle(&broken, now).unwrap_err()), "时间信息需要核对");
    let mut reversed = source(None, "OPEN");
    reversed.due_at = Some("2026-08-01T00:00:00Z".into());
    assert!(lifecycle(&reversed, now).is_err());
}

#[test]
fn overdue_item_grows_to_now_and_keeps_its_deadline() {
    let now = at("2026-09-20T00:00:00Z");
    let item = source(Some("ORDINARY"), "OPEN");
    let life = lifecycle(&item, now).unwrap();
    let segment = life_segment(&item, &life, now, None).unwrap();
    assert_eq!(segment.end, now);
    assert_eq!(segment.deadline, Some(at("2026-09-10T18:00:00Z")));
    assert_eq!(segment.shape, SegmentShape::Range);
    assert!(!segment.open_ended);
    let spans = state_spans(
        false,
        None,
        segment.start,
        segment.end,
        segment.deadline,
        None,
        false,
        true,
        at("2026-09-01T00:00:00Z"),
        at("2026-10-01T00:00:00Z"),
    );
    let kinds: Vec<StateKind> = spans.iter().map(|s| s.kind).collect();
    assert_eq!(kinds, vec![StateKind::Active, StateKind::Overdue]);
    assert_eq!(spans[1].from, at("2026-09-10T18:00:00Z"));
    assert_eq!(spans[1].to, now);
}

#[test]
fn warning_highlight_must_not_start_after_the_target() {
    let now = at("2026-09-03T00:00:00Z");
    let mut item = source(Some("WARNING"), "OPEN");
    item.target_at = Some("2026-09-10T09:00:00Z".into());
    let life = lifecycle(&item, now).unwrap();
    let segment = life_segment(&item, &life, now, Some(at("2026-09-03T09:00:00Z"))).unwrap();
    assert_eq!(segment.shape, SegmentShape::Warning);
    assert_eq!(segment.highlight, Some(at("2026-09-03T09:00:00Z")));
    assert!(life_segment(&item, &life, now, Some(at("2026-09-11T00:00:00Z"))).is_err());
}

#[test]
fn payload_limit_keeps_the_count_of_every_visible_segment() {
    let make = |start: &str, end: &str| Segment {
        start: at(start),
        end: at(end),
        shape: SegmentShape::Occurrence,
        highlight: None,
        deadline: None,
        business_start: None,
        open_ended: false,
        history_incomplete: true,
        occurrence: OccurrenceLabel::Current,
        future_preview: false,
        allow_overdue: false,
    };
    let segments = vec![
        make("2026-08-01T00:00:00Z", "2026-08-10T00:00:00Z"),
        make("2026-09-01T00:00:00Z", "2026-09-10T00:00:00Z"),
        make("2026-09-10T00:00:00Z", "2026-09-20T00:00:00Z"),
        make("2026-09-20T00:00:00Z", "2026-10-20T00:00:00Z"),
    ];
    let range_start = at("2026-09-01T00:00:00Z");
    let range_end = at("2026-10-01T00:00:00Z");
    let (all, total) = keep_visible(segments.clone(), range_start, range_end, usize::MAX);
    assert_eq!(total, 3);
    assert_eq!(all.len(), 3);
    let (one, total_one) = keep_visible(segments.clone(), range_start, range_end, 1);
    assert_eq!(total_one, 3);
    assert_eq!(one.len(), 1);
    assert_eq!(one[0].end, all[0].end);
    let (none, count_only) = keep_visible(segments, range_start, range_end, 0);
    assert_eq!(count_only, 3);
    assert!(none.is_empty());
}

#[test]
fn monthly_cycles_keep_their_day_and_do_not_invent_history() {
    let now = at("2026-09-07T12:00:00Z");
    let mut item = source(Some("MONTHLY"), "OPEN");
    item.due_at = Some("2026-01-31T18:00:00Z".into());
    item.created_at = "2026-01-01T00:00:00Z".into();
    item.anchor_day = Some(31);
    let life = lifecycle(&item, now).unwrap();
    assert!(periodic(&item, &life));
    let segments = periodic_segments(&item, &life, now, date(2026, 2, 1), at("2026-03-01T00:00:00Z")).unwrap();
    assert_eq!(segments[0].occurrence, OccurrenceLabel::Current);
    assert!(segments[0].history_incomplete);
    assert_eq!(segments[1].start, at("2026-01-31T18:00:00Z"));
    assert_eq!(segments[1].occurrence, OccurrenceLabel::Planned { year: 2026, month: 2 });
    assert!(segments.len() >= 2);
    for pair in segments[1..].windows(2) {
        assert_eq!(pair[1].start, pair[0].end);
    }
    let mut done = item.clone();
    done.status = "DONE".into();
    let only = periodic_segments(&done, &life, now, date(2026, 2, 1), at("2026-03-01T00:00:00Z")).unwrap();
    assert_eq!(only.len(), 1);
    let mut bad = item.clone();
    bad.anchor_day = Some(32);
    assert!(periodic_segments(&bad, &life, now, date(2026, 2, 1), at("2026-03-01T00:00:00Z")).is_err());
}

fn day_of(instant: Instant) -> String {
    chrono::DateTime::<chrono::Utc>::from_timestamp(instant.secs, 0).unwrap().format("%Y-%m-%d").to_string()
}

fn sample() -> TimelineSourceItem {
    let mut item = source(Some("ORDINARY"), "OPEN");
    item.id = "sample".into();
    item.title = "核对预算".into();
    item.created_at = "2026-09-07T09:00:00+08:00".into();
    item.due_at = Some("2026-09-12T18:00:00+08:00".into());
    item
}

#[test]
fn ordinary_kinds_keep_the_deadline_marker_and_extend_overdue_to_now() {
    let now = at("2026-09-15T00:00:00Z");
    let (range_start, range_end) = (at("2026-09-01T00:00:00Z"), at("2026-10-01T00:00:00Z"));
    for kind in [None, Some("ORDINARY"), Some("ONE_TIME"), Some("TODAY_MUST")] {
        let mut item = sample();
        item.event_kind = kind.map(String::from);
        let life = lifecycle(&item, now).unwrap();
        let segment = life_segment(&item, &life, now, None).unwrap();
        assert_eq!(day_of(segment.start), "2026-09-07");
        assert_eq!(day_of(segment.end), "2026-09-15");
        assert_eq!(segment.deadline.map(day_of).as_deref(), Some("2026-09-12"));
        assert_eq!(segment.shape, SegmentShape::Range);
        let spans = state_spans(
            false, None, segment.start, segment.end, segment.deadline, segment.business_start,
            segment.future_preview, true, range_start, range_end,
        );
        assert_eq!(spans.last().unwrap().kind, StateKind::Overdue);

        item.status = "DONE".into();
        let done = life_segment(&item, &life, now, None).unwrap();
        assert_eq!(day_of(done.end), "2026-09-12");
        let spans = state_spans(
            true, None, done.start, done.end, done.deadline, done.business_start,
            done.future_preview, true, range_start, range_end,
        );
        assert_eq!(state_name(spans[0].kind).0, "COMPLETED");
        assert!(spans.iter().all(|span| span.kind != StateKind::Overdue));
    }
}

#[test]
fn monthly_segments_keep_original_day_after_february_and_dont_invent_history() {
    let mut item = sample();
    item.event_kind = Some("MONTHLY".into());
    item.created_at = "2028-01-05T09:00:00Z".into();
    item.due_at = Some("2028-02-29T18:00:00Z".into());
    item.anchor_day = Some(31);
    let now = at("2028-02-15T12:00:00Z");
    let life = lifecycle(&item, now).unwrap();
    let segments = periodic_segments(&item, &life, now, date(2028, 1, 1), at("2029-01-01T00:00:00Z")).unwrap();
    assert_eq!(day_of(segments[0].start), "2028-01-05");
    assert_eq!(day_of(segments[0].end), "2028-02-29");
    assert!(segments.iter().all(|segment| segment.history_incomplete));
    assert_eq!(day_of(segments[1].start), "2028-02-29");
    assert_eq!(day_of(segments[1].end), "2028-03-31");
    assert!(!segments.iter().any(|segment| day_of(segment.end) == "2028-01-31"));
}

#[test]
fn completion_marker_splits_early_and_late_completion_without_guessing() {
    let now = at("2026-09-15T00:00:00Z");
    let (range_start, range_end) = (at("2026-09-01T00:00:00Z"), at("2026-10-01T00:00:00Z"));
    let mut item = sample();
    item.status = "DONE".into();
    item.completed_at = Some("2026-09-10T10:00:00+08:00".into());
    let life = lifecycle(&item, now).unwrap();
    assert!(life.completed.is_some());
    let early = life_segment(&item, &life, now, None).unwrap();
    assert_eq!(day_of(early.end), "2026-09-12");
    let spans = state_spans(
        true, life.completed, early.start, early.end, early.deadline, early.business_start,
        early.future_preview, true, range_start, range_end,
    );
    assert_eq!(spans.last().unwrap().kind, StateKind::Completed);

    item.completed_at = Some("2026-09-14T10:00:00+08:00".into());
    let life = lifecycle(&item, now).unwrap();
    let late = life_segment(&item, &life, now, None).unwrap();
    assert_eq!(day_of(late.end), "2026-09-14");
    let spans = state_spans(
        true, life.completed, late.start, late.end, late.deadline, late.business_start,
        late.future_preview, true, range_start, range_end,
    );
    assert_eq!(spans.last().unwrap().kind, StateKind::Overdue);
}

#[test]
fn no_deadline_grows_to_now_and_invalid_boundaries_are_not_hidden() {
    let mut item = sample();
    item.due_at = None;
    let (range_start, range_end) = (at("2026-09-07T00:00:00Z"), at("2026-10-01T00:00:00Z"));
    for day in [7, 8] {
        let now = at(&format!("2026-09-{day:02}T12:00:00Z"));
        let life = lifecycle(&item, now).unwrap();
        let segment = life_segment(&item, &life, now, None).unwrap();
        assert!(segment.open_ended);
        assert_eq!(day_of(segment.end), format!("2026-09-{day:02}"));
        let spans = state_spans(
            false, None, segment.start, segment.end, segment.deadline, segment.business_start,
            segment.future_preview, true, range_start, range_end,
        );
        assert!(spans.iter().all(|span| span.kind != StateKind::Overdue));
    }
    let before_creation = at("2026-09-06T12:00:00Z");
    let projected = lifecycle(&item, before_creation).and_then(|life| life_segment(&item, &life, before_creation, None));
    assert!(projected.is_err());
    item.created_at = "broken".into();
    assert!(lifecycle(&item, before_creation).is_err());
}

#[test]
fn activity_and_warning_are_highlights_inside_the_lifecycle() {
    let now = at("2026-09-09T12:00:00Z");
    let mut item = sample();
    item.event_kind = Some("CONTINUOUS".into());
    item.start_at = Some("2026-09-10T09:00:00Z".into());
    item.end_at = Some("2026-09-15T18:00:00Z".into());
    let life = lifecycle(&item, now).unwrap();
    let start = business_start(&item, &life).unwrap();
    let segment = life_segment(&item, &life, now, start).unwrap();
    assert!(segment.highlight.unwrap().secs > segment.start.secs);

    item.event_kind = Some("WARNING".into());
    item.target_at = item.end_at.clone();
    item.lead_value = Some(2);
    item.lead_unit = Some("DAY".into());
    let life = lifecycle(&item, now).unwrap();
    let start = business_start(&item, &life).unwrap();
    let segment = life_segment(&item, &life, now, start).unwrap();
    let highlight = chrono::DateTime::<chrono::Utc>::from_timestamp(segment.highlight.unwrap().secs, 0).unwrap();
    assert_eq!(highlight.format("%Y/%m/%d %H:%M").to_string(), "2026/09/13 18:00");
    assert_eq!(day_of(segment.start), "2026-09-07");
}

#[test]
fn payload_limit_preserves_cycle_counts_and_invalid_time_validation() {
    let now = at("2026-09-07T12:00:00Z");
    let (range_start, range_end) = (at("2026-09-01T00:00:00Z"), at("2026-10-01T00:00:00Z"));
    let mut item = sample();
    item.event_kind = Some("MONTHLY".into());
    item.due_at = Some("2026-09-10T18:00:00Z".into());
    let life = lifecycle(&item, now).unwrap();
    let segments = periodic_segments(&item, &life, now, date(2026, 9, 1), range_end).unwrap();
    let (full, total) = keep_visible(segments.clone(), range_start, range_end, usize::MAX);
    assert!(full.len() > 1);
    assert_eq!(total, full.len() as u64);
    let (limited, limited_total) = keep_visible(segments.clone(), range_start, range_end, 1);
    assert_eq!(limited_total, full.len() as u64);
    assert_eq!(limited.len(), 1);
    assert_eq!(limited[0].end, full[0].end);
    let (count_only, count) = keep_visible(segments, range_start, range_end, 0);
    assert_eq!(count, full.len() as u64);
    assert!(count_only.is_empty());
    item.created_at = "damaged-time".into();
    assert!(lifecycle(&item, now).is_err());
}

#[test]
fn continuous_and_warning_events_keep_distinct_shapes() {
    let now = at("2026-09-03T08:00:00+08:00");
    let mut continuous = sample();
    continuous.title = "持续准备".into();
    continuous.created_at = "2026-09-03T08:00:00+08:00".into();
    continuous.event_kind = Some("CONTINUOUS".into());
    continuous.due_at = Some("2026-09-05T09:00:00+08:00".into());
    continuous.start_at = Some("2026-09-02T09:00:00+08:00".into());
    continuous.end_at = Some("2026-09-08T18:00:00+08:00".into());
    let mut warning = sample();
    warning.title = "发布预警".into();
    warning.created_at = "2026-09-03T08:00:00+08:00".into();
    warning.event_kind = Some("WARNING".into());
    warning.due_at = Some("2026-09-10T09:00:00+08:00".into());
    warning.target_at = Some("2026-09-10T09:00:00+08:00".into());
    warning.lead_value = Some(1);
    warning.lead_unit = Some("WEEK".into());
    let mut shapes = Vec::new();
    for item in [&continuous, &warning] {
        let life = lifecycle(item, now).unwrap();
        let start = business_start(item, &life).unwrap();
        shapes.push(life_segment(item, &life, now, start).unwrap().shape);
    }
    assert!(shapes.contains(&SegmentShape::Range));
    assert!(shapes.contains(&SegmentShape::Warning));
}

#[test]
fn yearly_leap_anchor_recovers_and_timezone_is_injected() {
    let mut item = sample();
    item.event_kind = Some("YEARLY".into());
    item.created_at = "2027-01-01T09:00:00Z".into();
    item.due_at = Some("2027-02-28T18:00:00Z".into());
    item.anchor_day = Some(29);
    item.anchor_month = Some(2);
    let now = at("2028-01-01T00:00:00Z");
    let (range_start, range_end) = (at("2028-01-01T00:00:00Z"), at("2029-01-01T00:00:00Z"));
    let life = lifecycle(&item, now).unwrap();
    let segments = periodic_segments(&item, &life, now, date(2028, 1, 1), range_end).unwrap();
    let (entries, _) = keep_visible(segments, range_start, range_end, usize::MAX);
    assert_eq!(day_of(entries[0].end), "2028-02-29");
}

#[test]
fn invalid_time_payload_is_bounded_and_reports_the_full_count() {
    let mut tally = TimelineTally::new();
    for value in 1..=250 {
        let mut item = source(None, "OPEN");
        item.id = format!("unscheduled-{value:03}");
        item.title = format!("待排期 {value:03}");
        item.created_at = "invalid-time".into();
        assert!(lifecycle(&item, at("2026-09-03T00:00:00Z")).is_err());
        tally.record_invalid(&item);
    }
    assert_eq!(tally.total_unscheduled_count, 250);
    assert_eq!(tally.skipped_invalid_count, 250);
    assert_eq!(tally.unscheduled.len(), MAX_UNSCHEDULED_ITEMS);
    assert_eq!(tally.unscheduled[0].reason, "时间信息需要核对");
    assert!(tally.truncated());
}

#[test]
fn kept_entries_are_bounded_and_counted() {
    let mut tally = TimelineTally::new();
    assert_eq!(tally.room(), MAX_VISIBLE_ENTRIES);
    tally.record_projected(5, 3);
    assert_eq!(tally.room(), MAX_VISIBLE_ENTRIES - 3);
    assert!(tally.truncated());
    let mut exact = TimelineTally::new();
    exact.record_projected(4, 4);
    assert!(!exact.truncated());
    exact.record_projected(0, (MAX_VISIBLE_ENTRIES - 4) as u64);
    assert_eq!(exact.room(), 0);
}

#[test]
fn unscheduled_items_are_listed_by_title() {
    let entry = |id: &str, title: &str| TimelineUnscheduledItem {
        item_id: id.into(),
        title: title.into(),
        status: "OPEN".into(),
        event_kind: None,
        reason: "时间信息需要核对".into(),
    };
    let sorted = unscheduled_by_title(vec![entry("c", "丙"), entry("a1", "甲"), entry("b", "乙"), entry("a2", "甲")]);
    let titles: Vec<&str> = sorted.iter().map(|u| u.title.as_str()).collect();
    let mut expected = vec!["丙", "甲", "乙", "甲"];
    expected.sort();
    assert_eq!(titles, expected);
    let ids: Vec<&str> = sorted.iter().filter(|u| u.title == "甲").map(|u| u.item_id.as_str()).collect();
    assert_eq!(ids, vec!["a1", "a2"]);
}
