use crate::point::PrimitivePoint;
use vstd::prelude::*;

verus! {

/// The pixel with the given coordinates.
pub open spec fn pixel_at(x: int, y: int) -> PrimitivePoint {
    PrimitivePoint { x: x as i32, y: y as i32 }
}

/// The placement that leaves each cell at its own coordinates.
pub open spec fn own_place() -> spec_fn(int, int) -> PrimitivePoint {
    |x: int, y: int| pixel_at(x, y)
}

/// Walks down one column of a grid, from `min_y` over `rows` cells, and
/// collects `place(x, y)` for each cell `(x, y)` that `keep` accepts.
pub open spec fn column_scan(
    x: int,
    min_y: int,
    rows: int,
    keep: spec_fn(int, int) -> bool,
    place: spec_fn(int, int) -> PrimitivePoint,
) -> Seq<PrimitivePoint>
    decreases rows,
{
    if rows <= 0 {
        Seq::empty()
    } else {
        let above = column_scan(x, min_y, rows - 1, keep, place);
        let y = min_y + rows - 1;
        if keep(x, y) {
            above.push(place(x, y))
        } else {
            above
        }
    }
}

/// Walks a grid column by column, from `min_x` over `columns` columns, each
/// from `min_y` over `rows` cells, and collects `place(x, y)` for each cell
/// that `keep` accepts.
pub open spec fn box_scan(
    min_x: int,
    min_y: int,
    columns: int,
    rows: int,
    keep: spec_fn(int, int) -> bool,
    place: spec_fn(int, int) -> PrimitivePoint,
) -> Seq<PrimitivePoint>
    decreases columns,
{
    if columns <= 0 {
        Seq::empty()
    } else {
        box_scan(min_x, min_y, columns - 1, rows, keep, place) + column_scan(
            min_x + columns - 1,
            min_y,
            rows,
            keep,
            place,
        )
    }
}

/// A column scan that places each cell at its own coordinates holds exactly
/// the accepted cells of the column.
pub proof fn lemma_column_scan_members(
    x: int,
    min_y: int,
    rows: int,
    keep: spec_fn(int, int) -> bool,
    p: PrimitivePoint,
)
    requires
        i32::MIN <= x <= i32::MAX,
        i32::MIN <= min_y,
        min_y + rows - 1 <= i32::MAX,
    ensures
        column_scan(x, min_y, rows, keep, own_place()).contains(p)
            <==> (p.x == x && min_y <= p.y < min_y + rows && keep(p.x as int, p.y as int)),
    decreases rows,
{
    let place = own_place();
    if rows > 0 {
        lemma_column_scan_members(x, min_y, rows - 1, keep, p);
        let above = column_scan(x, min_y, rows - 1, keep, place);
        let y = min_y + rows - 1;
        if keep(x, y) {
            let last = place(x, y);
            let all = above.push(last);
            assert(all == column_scan(x, min_y, rows, keep, place));
            assert(all[all.len() - 1] == last);
            if above.contains(p) {
                let i = choose|i: int| 0 <= i < above.len() && above[i] == p;
                assert(all[i] == p);
            }
            if all.contains(p) {
                let i = choose|i: int| 0 <= i < all.len() && all[i] == p;
                if i < above.len() {
                    assert(above[i] == p);
                }
            }
        }
    }
}

/// A box scan that places each cell at its own coordinates holds exactly the
/// accepted cells of the box.
pub proof fn lemma_box_scan_members(
    min_x: int,
    min_y: int,
    columns: int,
    rows: int,
    keep: spec_fn(int, int) -> bool,
    p: PrimitivePoint,
)
    requires
        i32::MIN <= min_x,
        min_x + columns - 1 <= i32::MAX,
        i32::MIN <= min_y,
        min_y + rows - 1 <= i32::MAX,
    ensures
        box_scan(min_x, min_y, columns, rows, keep, own_place()).contains(p)
            <==> (min_x <= p.x < min_x + columns && min_y <= p.y < min_y + rows && keep(
            p.x as int,
            p.y as int,
        )),
    decreases columns,
{
    let place = own_place();
    if columns > 0 {
        lemma_box_scan_members(min_x, min_y, columns - 1, rows, keep, p);
        lemma_column_scan_members(min_x + columns - 1, min_y, rows, keep, p);
        let left = box_scan(min_x, min_y, columns - 1, rows, keep, place);
        let right = column_scan(min_x + columns - 1, min_y, rows, keep, place);
        let all = left + right;
        assert(all == box_scan(min_x, min_y, columns, rows, keep, place));
        if left.contains(p) {
            let i = choose|i: int| 0 <= i < left.len() && left[i] == p;
            assert(all[i] == p);
        }
        if right.contains(p) {
            let i = choose|i: int| 0 <= i < right.len() && right[i] == p;
            assert(all[left.len() + i] == p);
        }
        if all.contains(p) {
            let i = choose|i: int| 0 <= i < all.len() && all[i] == p;
            if i < left.len() {
                assert(left[i] == p);
            } else {
                assert(right[i - left.len()] == p);
            }
        }
    }
}

} // verus!
