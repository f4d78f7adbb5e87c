use shanji::error::AppError;
use shanji::taxonomy::{
    check_reassign_target, move_direction, plan_move, unique_tag_ids, OrderedRow,
};

fn row(id: &str, position: i64, name: &str) -> OrderedRow {
    OrderedRow { id: id.into(), position, name: name.into() }
}

fn rows() -> Vec<OrderedRow> {
    vec![row("a", 10, "工作"), row("b", 20, "生活"), row("c", 30, "学习")]
}

fn validation_message(error: AppError) -> String {
    match error {
        AppError::Validation(message) => message,
        other => panic!("expected a validation error, got {other:?}"),
    }
}

#[test]
fn move_direction_reads_up_and_down() {
    assert!(move_direction("up").unwrap());
    assert!(!move_direction("down").unwrap());
    assert_eq!(validation_message(move_direction("sideways").unwrap_err()), "排序方向无效");
    assert_eq!(validation_message(move_direction("").unwrap_err()), "排序方向无效");
}

#[test]
fn moving_up_swaps_with_the_nearest_row_above() {
    let swap = plan_move(&rows(), "c", true, "类型").unwrap().unwrap();
    assert_eq!(swap.moved_id, "c");
    assert_eq!(swap.moved_to, 20);
    assert_eq!(swap.neighbour_id, "b");
    assert_eq!(swap.neighbour_to, 30);
}

#[test]
fn moving_down_swaps_with_the_nearest_row_below() {
    let swap = plan_move(&rows(), "a", false, "类型").unwrap().unwrap();
    assert_eq!(swap.moved_id, "a");
    assert_eq!(swap.moved_to, 20);
    assert_eq!(swap.neighbour_id, "b");
    assert_eq!(swap.neighbour_to, 10);
}

#[test]
fn moving_past_the_end_changes_nothing() {
    assert!(plan_move(&rows(), "a", true, "类型").unwrap().is_none());
    assert!(plan_move(&rows(), "c", false, "类型").unwrap().is_none());
}

#[test]
fn rows_listed_out_of_order_still_pick_the_nearest() {
    let shuffled = vec![row("c", 30, "c"), row("a", 10, "a"), row("b", 20, "b")];
    let swap = plan_move(&shuffled, "c", true, "标签").unwrap().unwrap();
    assert_eq!(swap.neighbour_id, "b");
    let swap = plan_move(&shuffled, "a", false, "标签").unwrap().unwrap();
    assert_eq!(swap.neighbour_id, "b");
}

#[test]
fn equal_positions_are_ordered_by_name() {
    let tied = vec![row("x", 10, "alpha"), row("y", 10, "beta"), row("z", 20, "gamma")];
    let swap = plan_move(&tied, "z", true, "标签").unwrap().unwrap();
    assert_eq!(swap.neighbour_id, "y");
    assert_eq!(swap.moved_to, 10);
    assert_eq!(swap.neighbour_to, 20);
}

#[test]
fn moving_an_unknown_row_is_refused() {
    let error = plan_move(&rows(), "missing", true, "标签").unwrap_err();
    assert_eq!(validation_message(error), "找不到要排序的标签");
    let error = plan_move(&[], "a", false, "类型").unwrap_err();
    assert_eq!(validation_message(error), "找不到要排序的类型");
}

#[test]
fn a_type_cannot_be_deleted_into_itself() {
    let error = check_reassign_target("a", Some("a")).unwrap_err();
    assert_eq!(validation_message(error), "请选择另一个类型作为迁移目标");
    assert!(check_reassign_target("a", Some("b")).is_ok());
    assert!(check_reassign_target("a", None).is_ok());
}

#[test]
fn tag_ids_are_sorted_and_kept_once() {
    let ids: Vec<String> = vec!["t3".into(), "t1".into(), "t3".into(), "t2".into(), "t1".into()];
    assert_eq!(unique_tag_ids(&ids), vec!["t1".to_string(), "t2".into(), "t3".into()]);
    assert!(unique_tag_ids(&[]).is_empty());
}

#[test]
fn types_and_tags_can_be_reordered() {
    // The built-in types, then two new tags appended after the existing ones.
    let categories = vec![row("work", 10, "工作"), row("personal", 20, "个人")];
    let swap = plan_move(&categories, "personal", true, "类型").unwrap().unwrap();
    assert_eq!((swap.moved_id.as_str(), swap.moved_to), ("personal", 10));
    assert_eq!((swap.neighbour_id.as_str(), swap.neighbour_to), ("work", 20));

    let tags = vec![row("first", 10, "客户"), row("second", 20, "内部")];
    let swap = plan_move(&tags, "second", true, "标签").unwrap().unwrap();
    assert_eq!(swap.moved_id, "second");
    assert!(swap.moved_to < swap.neighbour_to);
    assert_eq!(swap.neighbour_id, "first");
}
