//! Types and tags: moving one up or down the list, deleting a type into
//! another one, and the set of tags an item is given.
use vstd::prelude::*;

use crate::domain::{lex_le, lex_le_exec};
use crate::error::{is_validation, validation, AppError, AppResult};
use crate::summary::{names_of, strictly_sorted};
use crate::text::{chars_of, concat, str_eq};

verus! {

/// A type or tag as the list orders it.
#[derive(Debug, Clone)]
pub struct OrderedRow {
    pub id: String,
    pub position: i64,
    pub name: String,
}

/// Reads the direction of a move: `true` for up, `false` for down.
pub fn move_direction(direction: &str) -> (r: AppResult<bool>)
    ensures
        direction@ == "up"@ ==> r == Ok::<bool, AppError>(true),
        direction@ == "down"@ ==> r == Ok::<bool, AppError>(false),
        direction@ != "up"@ && direction@ != "down"@ ==> (r matches Err(e) && is_validation(e, "排序方向无效"@)),
{
    proof {
        reveal_strlit("up");
        reveal_strlit("down");
        assert("up"@.len() != "down"@.len());
    }
    if str_eq(direction, "up") {
        Ok(true)
    } else if str_eq(direction, "down") {
        Ok(false)
    } else {
        Err(validation("排序方向无效"))
    }
}

/// `a` comes no later than `b` in the list: by position, then by name.
pub open spec fn row_le(a: OrderedRow, b: OrderedRow) -> bool {
    a.position < b.position || (a.position == b.position && lex_le(a.name@, b.name@))
}

/// A row the moved one may swap with: above it when moving up, below it
/// when moving down.
pub open spec fn on_side(row: OrderedRow, current: i64, up: bool) -> bool {
    if up {
        row.position < current
    } else {
        row.position > current
    }
}

/// The row at `j` is the nearest on its side: no other candidate lies
/// between it and the moved row.
pub open spec fn nearest(rows: Seq<OrderedRow>, j: int, current: i64, up: bool) -> bool {
    &&& 0 <= j < rows.len()
    &&& on_side(rows[j], current, up)
    &&& forall|k: int|
        0 <= k < rows.len() && on_side(#[trigger] rows[k], current, up) ==> if up {
            row_le(rows[k], rows[j])
        } else {
            row_le(rows[j], rows[k])
        }
}

fn row_le_exec(a: &OrderedRow, b: &OrderedRow) -> (r: bool)
    ensures
        r == row_le(*a, *b),
{
    if a.position != b.position {
        return a.position < b.position;
    }
    let x = chars_of(a.name.as_str());
    let y = chars_of(b.name.as_str());
    lex_le_exec(&x, &y)
}

/// What a move swaps: the moved row takes the neighbour's position and the
/// neighbour takes the moved row's.
#[derive(Debug, Clone)]
pub struct Swap {
    pub moved_id: String,
    pub moved_to: i64,
    pub neighbour_id: String,
    pub neighbour_to: i64,
}

/// Moving the row `id` of a list of types (or tags, named by `label`) one
/// place up or down: it swaps positions with its nearest neighbour on that
/// side, and nothing changes at the end of the list.  A row not in the list
/// is refused.
pub fn plan_move(rows: &[OrderedRow], id: &str, up: bool, label: &str) -> (r: AppResult<Option<Swap>>)
    ensures
        (forall|i: int| 0 <= i < rows@.len() ==> (#[trigger] rows@[i]).id@ != id@) ==> (r matches Err(e)
            && is_validation(e, "找不到要排序的"@ + label@)),
        r matches Ok(None) ==> exists|i: int|
            0 <= i < rows@.len() && (#[trigger] rows@[i]).id@ == id@ && forall|k: int|
                0 <= k < rows@.len() ==> !on_side(#[trigger] rows@[k], rows@[i].position, up),
        r matches Ok(Some(s)) ==> exists|i: int, j: int|
            0 <= i < rows@.len() && (#[trigger] rows@[i]).id@ == id@ && nearest(rows@, j, rows@[i].position, up)
                && s.moved_id@ == id@ && s.moved_to == (#[trigger] rows@[j]).position
                && s.neighbour_id == rows@[j].id && s.neighbour_to == rows@[i].position,
{
    let mut found: Option<usize> = None;
    let mut i: usize = 0;
    while i < rows.len()
        invariant
            i <= rows@.len(),
            match found {
                Some(f) => f < rows@.len() && rows@[f as int].id@ == id@,
                None => forall|k: int| 0 <= k < i ==> (#[trigger] rows@[k]).id@ != id@,
            },
        decreases rows@.len() - i,
    {
        if found.is_none() && str_eq(rows[i].id.as_str(), id) {
            found = Some(i);
        }
        i = i + 1;
    }
    let m = match found {
        Some(m) => m,
        None => {
            return Err(validation_owned(concat("找不到要排序的", label)));
        },
    };
    let current = rows[m].position;
    let mut best: Option<usize> = None;
    let mut k: usize = 0;
    while k < rows.len()
        invariant
            k <= rows@.len(),
            m < rows@.len(),
            current == rows@[m as int].position,
            match best {
                Some(b) => b < k && on_side(rows@[b as int], current, up) && forall|q: int|
                    0 <= q < k && on_side(#[trigger] rows@[q], current, up) ==> if up {
                        row_le(rows@[q], rows@[b as int])
                    } else {
                        row_le(rows@[b as int], rows@[q])
                    },
                None => forall|q: int| 0 <= q < k ==> !on_side(#[trigger] rows@[q], current, up),
            },
        decreases rows@.len() - k,
    {
        let side = if up {
            rows[k].position < current
        } else {
            rows[k].position > current
        };
        if side {
            match best {
                None => {
                    proof {
                        lemma_row_order(rows@[k as int], rows@[k as int], rows@[k as int]);
                    }
                    best = Some(k);
                },
                Some(b) => {
                    let better = if up {
                        !row_le_exec(&rows[k], &rows[b])
                    } else {
                        !row_le_exec(&rows[b], &rows[k])
                    };
                    proof {
                        assert forall|q: int|
                            0 <= q < k + 1 && on_side(#[trigger] rows@[q], current, up) implies (if up {
                                row_le(rows@[q], rows@[if better { k as int } else { b as int }])
                            } else {
                                row_le(rows@[if better { k as int } else { b as int }], rows@[q])
                            }) by {
                            lemma_row_order(rows@[q], rows@[b as int], rows@[k as int]);
                            lemma_row_order(rows@[k as int], rows@[b as int], rows@[q]);
                            lemma_row_order(rows@[b as int], rows@[k as int], rows@[q]);
                            lemma_row_order(rows@[q], rows@[k as int], rows@[b as int]);
                        }
                    }
                    if better {
                        best = Some(k);
                    }
                },
            }
        }
        k = k + 1;
    }
    match best {
        None => Ok(None),
        Some(b) => Ok(
            Some(
                Swap {
                    moved_id: rows[m].id.clone(),
                    moved_to: rows[b].position,
                    neighbour_id: rows[b].id.clone(),
                    neighbour_to: current,
                },
            ),
        ),
    }
}

fn validation_owned(message: String) -> (r: AppError)
    ensures
        r == AppError::Validation(message),
{
    AppError::Validation(message)
}

/// Rows compare by position and then name, and that order is total and
/// transitive.
proof fn lemma_row_order(a: OrderedRow, b: OrderedRow, c: OrderedRow)
    ensures
        row_le(a, a),
        !row_le(a, b) ==> row_le(b, a),
        row_le(a, b) && row_le(b, c) ==> row_le(a, c),
{
    crate::domain::lemma_lex_total(a.name@, a.name@);
    crate::domain::lemma_lex_total(a.name@, b.name@);
    if row_le(a, b) && row_le(b, c) && a.position == b.position && b.position == c.position {
        crate::domain::lemma_lex_trans(a.name@, b.name@, c.name@);
    }
}

/// A type cannot be deleted into itself.
pub fn check_reassign_target(id: &str, reassign_to: Option<&str>) -> (r: AppResult<()>)
    ensures
        (reassign_to matches Some(t) && t@ == id@) ==> (r matches Err(e) && is_validation(
            e,
            "请选择另一个类型作为迁移目标"@,
        )),
        !(reassign_to matches Some(t) && t@ == id@) ==> r is Ok,
{
    match reassign_to {
        Some(t) => if str_eq(t, id) {
            Err(validation("请选择另一个类型作为迁移目标"))
        } else {
            Ok(())
        },
        None => Ok(()),
    }
}

/// The tags an item is given: each chosen tag once, in order.
pub fn unique_tag_ids(tag_ids: &[String]) -> (r: Vec<String>)
    ensures
        strictly_sorted(r@),
        forall|n: Seq<char>| names_of(r@).contains(n) <==> exists|i: int|
            0 <= i < tag_ids@.len() && (#[trigger] tag_ids@[i])@ == n,
{
    let mut out: Vec<String> = Vec::new();
    let mut i: usize = 0;
    while i < tag_ids.len()
        invariant
            i <= tag_ids@.len(),
            strictly_sorted(out@),
            forall|n: Seq<char>| names_of(out@).contains(n) <==> exists|k: int|
                0 <= k < i && (#[trigger] tag_ids@[k])@ == n,
        decreases tag_ids@.len() - i,
    {
        let ghost before = out@;
        crate::summary::insert_name(&mut out, tag_ids[i].clone());
        proof {
            assert forall|n: Seq<char>| names_of(out@).contains(n) <==> exists|k: int|
                0 <= k < i + 1 && (#[trigger] tag_ids@[k])@ == n by {
                if names_of(out@).contains(n) && n != tag_ids@[i as int]@ {
                    assert(names_of(before).contains(n));
                }
                if exists|k: int| 0 <= k < i + 1 && (#[trigger] tag_ids@[k])@ == n {
                    let k = choose|k: int| 0 <= k < i + 1 && (#[trigger] tag_ids@[k])@ == n;
                    if k < i {
                        assert(names_of(before).contains(n));
                    }
                }
            }
        }
        i = i + 1;
    }
    out
}

} // verus!
