use vstd::prelude::*;

use crate::sandbox::{CELL_SIZE, SANDBOX_HEIGHT, SANDBOX_WIDTH};

verus! {

/// A window coordinate divided by the cell size, truncated toward zero.
pub open spec fn to_cell_coord(v: int) -> int {
    if v >= 0 {
        v / (CELL_SIZE as int)
    } else {
        -((-v) / (CELL_SIZE as int))
    }
}

/// The grid position `(column, row)` under the window point `(x, y)`, or
/// `None` where either is negative, the column is past the width, or the row
/// is past the height. The column equal to the width, and the row equal to
/// the height, are let through.
pub fn window_to_world(x: i32, y: i32) -> (r: Option<(usize, usize)>)
    ensures
        r == (if 0 <= to_cell_coord(x as int) <= SANDBOX_WIDTH && 0 <= to_cell_coord(y as int)
            <= SANDBOX_HEIGHT {
            Some((to_cell_coord(x as int) as usize, to_cell_coord(y as int) as usize))
        } else {
            None
        }),
{
    // Division truncates toward zero, so only a coordinate at or below minus
    // the cell size gives a negative cell index.
    if x <= -(CELL_SIZE as i32) || y <= -(CELL_SIZE as i32) {
        return None;
    }
    let sx: usize = if x < 0 {
        0
    } else {
        x as usize / CELL_SIZE
    };
    let sy: usize = if y < 0 {
        0
    } else {
        y as usize / CELL_SIZE
    };
    if sx > SANDBOX_WIDTH || sy > SANDBOX_HEIGHT {
        return None;
    }
    Some((sx, sy))
}

} // verus!
